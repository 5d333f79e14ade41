//! Communication endpoints: a transport protocol combined with a
//! serialization format, and what is known of each combination.

use crate::serialization::{BinaryFormat, JsonFormat, SerializationFormat};
use crate::transport::{TcpTransport, TransportProtocol, UdpTransport};
use std::marker::PhantomData;
use vstd::prelude::*;

verus! {

/// Information about a transport protocol.
#[derive(Debug, Clone, Copy)]
pub struct TransportInfo {
    pub name: &'static str,
    pub connection_oriented: bool,
    pub reliable: bool,
}

/// Information about a serialization format.
#[derive(Debug, Clone, Copy)]
pub struct FormatInfo {
    pub name: &'static str,
    pub human_readable: bool,
    pub mime_type: &'static str,
}

/// A connection `C` used with transport `T` and format `S`.
pub struct CommunicationEndpoint<T: TransportProtocol, S: SerializationFormat, C> {
    connection: C,
    _transport: PhantomData<T>,
    _serialization: PhantomData<S>,
}

impl<T: TransportProtocol, S: SerializationFormat, C> CommunicationEndpoint<T, S, C> {
    /// Creates an endpoint around a connection.
    pub fn new(connection: C) -> (r: Self)
        ensures
            r.connection() == connection,
    {
        CommunicationEndpoint { connection, _transport: PhantomData, _serialization: PhantomData }
    }

    /// The connection of the endpoint.
    pub closed spec fn connection(&self) -> C {
        self.connection
    }

    /// The connection of the endpoint, to send and receive with.
    pub fn connection_mut(&mut self) -> (r: &mut C)
        ensures
            *r == old(self).connection(),
            final(self).connection() == *final(r),
    {
        &mut self.connection
    }

    /// Information about the transport protocol.
    pub fn transport_info() -> (r: TransportInfo)
        ensures
            r.name@ == T::name_view(),
            r.connection_oriented == T::is_connection_oriented(),
            r.reliable == T::is_reliable(),
    {
        TransportInfo { name: T::name(), connection_oriented: T::connection_oriented(), reliable: T::reliable() }
    }

    /// Information about the serialization format.
    pub fn format_info() -> (r: FormatInfo)
        ensures
            r.name@ == S::name_view(),
            r.human_readable == S::is_human_readable(),
            r.mime_type@ == S::mime_view(),
    {
        FormatInfo { name: S::name(), human_readable: S::human_readable(), mime_type: S::mime_type() }
    }
}

/// TCP endpoints carrying JSON.
pub type TcpJsonEndpoint<C> = CommunicationEndpoint<TcpTransport, JsonFormat, C>;

/// TCP endpoints carrying binary data.
pub type TcpBinaryEndpoint<C> = CommunicationEndpoint<TcpTransport, BinaryFormat, C>;

/// UDP endpoints carrying JSON.
pub type UdpJsonEndpoint<C> = CommunicationEndpoint<UdpTransport, JsonFormat, C>;

/// UDP endpoints carrying binary data.
pub type UdpBinaryEndpoint<C> = CommunicationEndpoint<UdpTransport, BinaryFormat, C>;

/// The views of a list of static strings.
pub open spec fn str_views(v: Seq<&'static str>) -> Seq<Seq<char>> {
    v.map_values(|s: &'static str| s@)
}

/// Notes on a combination of transport and format, implemented for the
/// pair of the transport and format markers.
pub trait ProtocolCompatible {
    /// Whether the combination is valid.
    const VALID: bool;

    /// The notes on the combination.
    spec fn notes() -> Seq<Seq<char>>;

    /// Why the combination might be suboptimal, or what it is good for.
    fn compatibility_notes() -> (r: Vec<&'static str>)
        ensures
            str_views(r@) == Self::notes(),
    ;
}

fn two_notes(a: &'static str, b: &'static str) -> (r: Vec<&'static str>)
    ensures
        str_views(r@) == seq![a@, b@],
{
    let mut v: Vec<&'static str> = Vec::new();
    v.push(a);
    v.push(b);
    assert(str_views(v@) =~= seq![a@, b@]);
    v
}

impl ProtocolCompatible for (TcpTransport, JsonFormat) {
    const VALID: bool = true;

    open spec fn notes() -> Seq<Seq<char>> {
        seq!["Standard web-compatible combination"@, "Good for debugging"@]
    }

    fn compatibility_notes() -> (r: Vec<&'static str>) {
        two_notes("Standard web-compatible combination", "Good for debugging")
    }
}

impl ProtocolCompatible for (TcpTransport, BinaryFormat) {
    const VALID: bool = true;

    open spec fn notes() -> Seq<Seq<char>> {
        seq!["High performance combination"@, "Compact message size"@]
    }

    fn compatibility_notes() -> (r: Vec<&'static str>) {
        two_notes("High performance combination", "Compact message size")
    }
}

impl ProtocolCompatible for (UdpTransport, JsonFormat) {
    const VALID: bool = true;

    open spec fn notes() -> Seq<Seq<char>> {
        seq!["JSON overhead may be significant for UDP"@, "Consider binary format for better performance"@]
    }

    fn compatibility_notes() -> (r: Vec<&'static str>) {
        two_notes("JSON overhead may be significant for UDP", "Consider binary format for better performance")
    }
}

impl ProtocolCompatible for (UdpTransport, BinaryFormat) {
    const VALID: bool = true;

    open spec fn notes() -> Seq<Seq<char>> {
        seq!["Optimal combination for UDP"@, "Minimal overhead"@]
    }

    fn compatibility_notes() -> (r: Vec<&'static str>) {
        two_notes("Optimal combination for UDP", "Minimal overhead")
    }
}

/// Builder of endpoints for a valid combination of transport and format.
pub struct EndpointBuilder<T: TransportProtocol, S: SerializationFormat> {
    _transport: PhantomData<T>,
    _serialization: PhantomData<S>,
}

impl<T: TransportProtocol, S: SerializationFormat> EndpointBuilder<T, S> where (T, S): ProtocolCompatible {
    /// Creates a builder.
    pub fn new() -> Self {
        EndpointBuilder { _transport: PhantomData, _serialization: PhantomData }
    }

    /// Builds the endpoint around a connection.
    pub fn build<C>(self, connection: C) -> (r: CommunicationEndpoint<T, S, C>)
        ensures
            r.connection() == connection,
    {
        CommunicationEndpoint::new(connection)
    }

    /// The notes on this combination.
    pub fn compatibility_notes(&self) -> (r: Vec<&'static str>)
        ensures
            str_views(r@) == <(T, S) as ProtocolCompatible>::notes(),
    {
        <(T, S) as ProtocolCompatible>::compatibility_notes()
    }
}

/// Factory for the common endpoint combinations.
pub struct CommunicationFactory;

impl CommunicationFactory {
    /// A TCP + JSON endpoint builder.
    pub fn tcp_json() -> EndpointBuilder<TcpTransport, JsonFormat> {
        EndpointBuilder::new()
    }

    /// A TCP + binary endpoint builder.
    pub fn tcp_binary() -> EndpointBuilder<TcpTransport, BinaryFormat> {
        EndpointBuilder::new()
    }

    /// A UDP + JSON endpoint builder.
    pub fn udp_json() -> EndpointBuilder<UdpTransport, JsonFormat> {
        EndpointBuilder::new()
    }

    /// A UDP + binary endpoint builder.
    pub fn udp_binary() -> EndpointBuilder<UdpTransport, BinaryFormat> {
        EndpointBuilder::new()
    }
}

} // verus!
