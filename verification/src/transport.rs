//! Transport protocols and the length-prefixed framing of TCP messages.

use vstd::prelude::*;

verus! {

/// A transport protocol: its name, whether it is connection-oriented, and
/// whether it guarantees delivery.
pub trait TransportProtocol {
    /// The name of the protocol.
    const NAME: &'static str;
    /// Whether the protocol is connection-oriented.
    const CONNECTION_ORIENTED: bool;
    /// Whether the protocol guarantees delivery.
    const RELIABLE: bool;

    /// The name of the protocol, as text.
    spec fn name_view() -> Seq<char>;

    /// Whether the protocol is connection-oriented.
    spec fn is_connection_oriented() -> bool;

    /// Whether the protocol guarantees delivery.
    spec fn is_reliable() -> bool;

    /// The name of the protocol.
    fn name() -> (r: &'static str)
        ensures
            r@ == Self::name_view(),
    ;

    /// Whether the protocol is connection-oriented.
    fn connection_oriented() -> (r: bool)
        ensures
            r == Self::is_connection_oriented(),
    ;

    /// Whether the protocol guarantees delivery.
    fn reliable() -> (r: bool)
        ensures
            r == Self::is_reliable(),
    ;
}

/// TCP transport protocol marker.
#[derive(Debug, Clone, Copy)]
pub struct TcpTransport;

impl TransportProtocol for TcpTransport {
    const NAME: &'static str = "TCP";
    const CONNECTION_ORIENTED: bool = true;
    const RELIABLE: bool = true;

    open spec fn name_view() -> Seq<char> {
        "TCP"@
    }

    open spec fn is_connection_oriented() -> bool {
        true
    }

    open spec fn is_reliable() -> bool {
        true
    }

    fn name() -> (r: &'static str) {
        "TCP"
    }

    fn connection_oriented() -> (r: bool) {
        true
    }

    fn reliable() -> (r: bool) {
        true
    }
}

/// UDP transport protocol marker.
#[derive(Debug, Clone, Copy)]
pub struct UdpTransport;

impl TransportProtocol for UdpTransport {
    const NAME: &'static str = "UDP";
    const CONNECTION_ORIENTED: bool = false;
    const RELIABLE: bool = false;

    open spec fn name_view() -> Seq<char> {
        "UDP"@
    }

    open spec fn is_connection_oriented() -> bool {
        false
    }

    open spec fn is_reliable() -> bool {
        false
    }

    fn name() -> (r: &'static str) {
        "UDP"
    }

    fn connection_oriented() -> (r: bool) {
        false
    }

    fn reliable() -> (r: bool) {
        false
    }
}

/// The largest message a TCP connection accepts, in bytes.
pub const MAX_MESSAGE_SIZE: usize = 10_000_000;

/// The four big-endian bytes of a `u32`.
pub open spec fn be_u32_bytes(x: u32) -> Seq<u8> {
    seq![(x >> 24) as u8, ((x >> 16) & 0xff) as u8, ((x >> 8) & 0xff) as u8, (x & 0xff) as u8]
}

/// The `u32` of four big-endian bytes.
pub open spec fn be_u32_value(b: Seq<u8>) -> u32 {
    ((b[0] as u32) << 24) | ((b[1] as u32) << 16) | ((b[2] as u32) << 8) | (b[3] as u32)
}

/// The length prefix of a message: its length, truncated to 32 bits, as
/// four big-endian bytes.
pub fn length_prefix(len: usize) -> (r: [u8; 4])
    ensures
        r@ == be_u32_bytes(len as u32),
{
    let n = len as u32;
    let r = [(n >> 24) as u8, ((n >> 16) & 0xff) as u8, ((n >> 8) & 0xff) as u8, (n & 0xff) as u8];
    assert(r@ =~= be_u32_bytes(len as u32));
    r
}

/// The length a prefix announces, or `None` when it exceeds the largest
/// accepted message.
pub fn decode_length_prefix(prefix: [u8; 4]) -> (r: Option<usize>)
    ensures
        be_u32_value(prefix@) as int > MAX_MESSAGE_SIZE ==> r is None,
        be_u32_value(prefix@) as int <= MAX_MESSAGE_SIZE ==> r == Some(be_u32_value(prefix@) as usize),
{
    let len: u32 = ((prefix[0] as u32) << 24) | ((prefix[1] as u32) << 16) | ((prefix[2] as u32) << 8)
        | (prefix[3] as u32);
    assert(len == be_u32_value(prefix@));
    if len > 10_000_000 {
        None
    } else {
        Some(len as usize)
    }
}

/// A prefix announces the length it was made from, for every length that
/// fits in 32 bits.
pub proof fn law_length_prefix_roundtrip(len: u32)
    ensures
        be_u32_value(be_u32_bytes(len)) == len,
{
    let b = be_u32_bytes(len);
    let b0 = b[0];
    let b1 = b[1];
    let b2 = b[2];
    let b3 = b[3];
    assert(b0 == (len >> 24) as u8 && b1 == ((len >> 16) & 0xff) as u8 && b2 == ((len >> 8) & 0xff) as u8
        && b3 == (len & 0xff) as u8 ==> (((b0 as u32) << 24) | ((b1 as u32) << 16) | ((b2 as u32) << 8) | (
    b3 as u32)) == len) by (bit_vector);
}

} // verus!
