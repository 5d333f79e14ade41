//! Protocol and format markers, and the binary serialization contract.

use crate::events::{EventError, EventErrorView};
use std::marker::PhantomData;
use vstd::prelude::*;

verus! {

/// Transport protocol marker.
pub trait Protocol {}

/// TCP marker.
#[derive(Debug, Clone, Copy)]
pub struct Tcp;

impl Protocol for Tcp {}

/// UDP marker.
#[derive(Debug, Clone, Copy)]
pub struct Udp;

impl Protocol for Udp {}

/// Serialization format marker.
pub trait SerializationFormat {}

/// JSON marker.
#[derive(Debug, Clone, Copy)]
pub struct Json;

impl SerializationFormat for Json {}

/// Binary marker.
#[derive(Debug, Clone, Copy)]
pub struct Binary;

impl SerializationFormat for Binary {}

/// Binary serialization without JSON overhead.
///
/// An implementation states what it writes (`binary_encoding`, `None` when
/// it cannot serialize) and which byte strings it reads back as which values
/// (`binary_decodable` and `binary_decodes`).
pub trait BinarySerializable: Sized {
    /// The bytes the value serializes to, or `None` when it cannot.
    spec fn binary_encoding(&self) -> Option<Seq<u8>>;

    /// Whether the bytes deserialize.
    spec fn binary_decodable(data: Seq<u8>) -> bool;

    /// Whether `v` is the value the bytes deserialize to.
    spec fn binary_decodes(data: Seq<u8>, v: Self) -> bool;

    /// The error the value gives when it cannot be serialized.
    spec fn binary_encoding_error(&self) -> EventErrorView;

    /// The error bytes that do not deserialize give.
    spec fn binary_decoding_error(data: Seq<u8>) -> EventErrorView;

    fn serialize_binary(&self) -> (r: Result<Vec<u8>, EventError>)
        ensures
            match r {
                Ok(bytes) => self.binary_encoding() == Some(bytes@),
                Err(e) => self.binary_encoding() is None && e@ == self.binary_encoding_error(),
            },
    ;

    fn deserialize_binary(data: &[u8]) -> (r: Result<Self, EventError>)
        ensures
            match r {
                Ok(v) => Self::binary_decodable(data@) && Self::binary_decodes(data@, v),
                Err(e) => !Self::binary_decodable(data@) && e@ == Self::binary_decoding_error(data@),
            },
    ;
}

/// Encoding of events for a protocol and format.
pub trait ProtocolEvent<P: Protocol, F: SerializationFormat>: Sized {
    fn serialize_for_protocol(&self) -> Result<Vec<u8>, EventError>;

    fn deserialize_for_protocol(data: &[u8]) -> Result<Self, EventError>;
}

/// Binary over UDP: the event's own binary encoding.
impl<T: BinarySerializable> ProtocolEvent<Udp, Binary> for T {
    fn serialize_for_protocol(&self) -> (r: Result<Vec<u8>, EventError>)
        ensures
            match r {
                Ok(bytes) => self.binary_encoding() == Some(bytes@),
                Err(e) => self.binary_encoding() is None && e@ == self.binary_encoding_error(),
            },
    {
        self.serialize_binary()
    }

    fn deserialize_for_protocol(data: &[u8]) -> (r: Result<Self, EventError>)
        ensures
            match r {
                Ok(v) => T::binary_decodable(data@) && T::binary_decodes(data@, v),
                Err(e) => !T::binary_decodable(data@) && e@ == T::binary_decoding_error(data@),
            },
    {
        T::deserialize_binary(data)
    }
}

/// A handler `H` of events `T`, bound to a protocol and a format.
pub struct ProtocolHandler<P: Protocol, F: SerializationFormat, T, H: Fn(T) -> Result<(), EventError>> {
    handler: H,
    _protocol: PhantomData<P>,
    _format: PhantomData<F>,
    _event: PhantomData<T>,
}

impl<P: Protocol, F: SerializationFormat, T, H: Fn(T) -> Result<(), EventError>> ProtocolHandler<P, F, T, H> {
    /// The wrapped handler.
    pub closed spec fn handler(&self) -> H {
        self.handler
    }

    /// Wraps a handler.
    pub fn new(handler: H) -> (r: Self)
        ensures
            r.handler() == handler,
    {
        ProtocolHandler { handler, _protocol: PhantomData, _format: PhantomData, _event: PhantomData }
    }

    /// Runs the handler on an event.
    pub fn handle(&self, event: T) -> (r: Result<(), EventError>)
        requires
            self.handler().requires((event,)),
        ensures
            self.handler().ensures((event,), r),
    {
        (self.handler)(event)
    }
}

} // verus!
