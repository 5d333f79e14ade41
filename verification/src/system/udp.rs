//! UDP event transport: packets, per-connection sequencing, compression
//! and the checks applied to incoming packets.

use crate::events::{is_handler_execution, Event, EventError, EventErrorView};
use crate::types::PlayerId;
use crate::utils::instant_now;
use std::io::{Read, Write};
use vstd::prelude::*;

verus! {

/// The bytes a fast deflate (`flate2::write::DeflateEncoder` at
/// `Compression::fast()`) writes for the data, or `None` where the encoder
/// reports an error.
pub uninterp spec fn deflate_fast(data: Seq<u8>) -> Option<Seq<u8>>;

/// What a deflate decoder (`flate2::read::DeflateDecoder`) reads from the
/// bytes, or `None` where it reports an error.
pub uninterp spec fn inflate(data: Seq<u8>) -> Option<Seq<u8>>;

/// Compresses with `flate2::write::DeflateEncoder` at `Compression::fast()`:
/// writes all the data, then finishes the stream. The outcome is the one
/// `deflate_fast` names for the data (writing into a `Vec` never fails, so
/// only the encoder decides); when it succeeds, the decoder reads the bytes
/// back as the data (deflate is lossless).
#[verifier::external_body]
fn deflate_compress(data: &[u8]) -> (r: Option<Vec<u8>>)
    ensures
        match r {
            Some(c) => deflate_fast(data@) == Some(c@) && inflate(c@) == Some(data@),
            None => deflate_fast(data@) is None,
        },
{
    let mut encoder = flate2::write::DeflateEncoder::new(Vec::new(), flate2::Compression::fast());
    match encoder.write_all(data) {
        Ok(()) => encoder.finish().ok(),
        Err(_) => None,
    }
}

/// Decompresses with `flate2::read::DeflateDecoder`, reading to the end. The
/// result is the one `inflate` names; the error carries the text of the
/// reader's error, of which nothing is claimed.
#[verifier::external_body]
fn deflate_decompress(data: &[u8]) -> (r: Result<Vec<u8>, String>)
    ensures
        match r {
            Ok(v) => inflate(data@) == Some(v@),
            Err(_) => inflate(data@) is None,
        },
{
    let mut decoder = flate2::read::DeflateDecoder::new(data);
    let mut out = Vec::new();
    match decoder.read_to_end(&mut out) {
        Ok(_) => Ok(out),
        Err(e) => Err(format!("{}", e)),
    }
}

/// The packet checksum over a byte sequence: starting from 0, each byte `b`
/// turns the running value `c` into `c * 31 + b`, modulo 2^32.
pub open spec fn checksum_spec(data: Seq<u8>) -> u32
    decreases data.len(),
{
    if data.len() == 0 {
        0
    } else {
        let prev = checksum_spec(data.drop_last());
        ((prev as int * 31 + data.last() as int) % 0x1_0000_0000) as u32
    }
}

/// Computes the integrity checksum of a payload.
pub fn calculate_checksum(data: &[u8]) -> (checksum: u32)
    ensures
        checksum == checksum_spec(data@),
{
    let mut checksum: u32 = 0;
    let mut i: usize = 0;
    while i < data.len()
        invariant
            i <= data@.len(),
            checksum == checksum_spec(data@.take(i as int)),
        decreases data@.len() - i,
    {
        assert(data@.take(i as int + 1).drop_last() =~= data@.take(i as int));
        let byte: u8 = data[i];
        let next = checksum.wrapping_mul(31).wrapping_add(byte as u32);
        assert(next == ((checksum as int * 31 + byte as int) % 0x1_0000_0000) as u32) by (bit_vector)
            requires next == checksum.wrapping_mul(31).wrapping_add(byte as u32);
        checksum = next;
        i = i + 1;
    }
    assert(data@.take(data@.len() as int) =~= data@);
    checksum
}

/// Compression applied to a UDP payload.
#[derive(Debug, Clone, Copy, PartialEq, Eq, Structural)]
pub enum UdpCompressionType {
    /// No compression.
    Uncompressed,
    /// Deflate compression.
    Deflate,
    /// LZ4 compression (not implemented: such packets are rejected).
    Lz4,
}

/// UDP event header for protocol identification and routing.
#[derive(Debug, Clone)]
pub struct UdpEventHeader {
    /// Protocol version for compatibility
    pub version: u8,
    /// Event type identifier
    pub event_type: String,
    /// Source player or object identifier
    pub source_id: String,
    /// Target player or object identifier (empty for broadcast)
    pub target_id: String,
    /// Sequence number for ordering and duplicate detection
    pub sequence: u32,
    /// Timestamp for latency measurement
    pub timestamp: u64,
    /// Compression type applied to payload
    pub compression: UdpCompressionType,
    /// Total packet size: the payload plus an allowance of 64 bytes for the
    /// header, truncated to 32 bits
    pub total_size: u32,
}

/// UDP event packet.
#[derive(Debug, Clone)]
pub struct UdpEventPacket {
    /// Packet header
    pub header: UdpEventHeader,
    /// Binary payload data
    pub payload: Vec<u8>,
    /// Checksum for integrity verification
    pub checksum: u32,
}

/// UDP connection states.
#[derive(Debug, Clone, Copy, PartialEq, Eq, Structural)]
pub enum UdpConnectionState {
    Connecting,
    Connected,
    Disconnecting,
    Disconnected,
}

/// UDP connection state of a client.
#[derive(Debug, Clone)]
pub struct UdpConnection {
    /// Remote socket address, in its text form
    pub addr: String,
    /// Player ID associated with this connection
    pub player_id: PlayerId,
    /// Connection ID for tracking
    pub connection_id: String,
    /// Last seen time
    pub last_seen: tokio::time::Instant,
    /// Connection establishment time
    pub connected_at: tokio::time::Instant,
    /// Outbound sequence number
    pub out_sequence: u32,
    /// Inbound sequence number for duplicate detection
    pub in_sequence: u32,
    /// Bytes sent
    pub bytes_sent: u64,
    /// Bytes received
    pub bytes_received: u64,
    /// Connection state
    pub state: UdpConnectionState,
}

/// Whether an inbound sequence number is accepted after `last`: the next
/// one (wrapping) or any greater one.
pub open spec fn sequence_accepted(last: u32, sequence: u32) -> bool {
    sequence == (if last == u32::MAX { 0 } else { last + 1 }) || sequence > last
}

impl UdpConnection {
    /// A new connection, connecting, with all counters at zero.
    pub fn new(addr: String, player_id: PlayerId, connection_id: String) -> (r: Self)
        ensures
            r.addr@ == addr@,
            r.player_id == player_id,
            r.connection_id@ == connection_id@,
            r.out_sequence == 0,
            r.in_sequence == 0,
            r.bytes_sent == 0,
            r.bytes_received == 0,
            r.state == UdpConnectionState::Connecting,
    {
        let now = instant_now();
        UdpConnection {
            addr,
            player_id,
            connection_id,
            last_seen: now,
            connected_at: now,
            out_sequence: 0,
            in_sequence: 0,
            bytes_sent: 0,
            bytes_received: 0,
            state: UdpConnectionState::Connecting,
        }
    }

    /// Advances the outbound sequence number (wrapping) and returns it.
    pub fn next_sequence(&mut self) -> (r: u32)
        ensures
            r == (if old(self).out_sequence == u32::MAX { 0 } else { old(self).out_sequence + 1 }),
            final(self).out_sequence == r,
            final(self).in_sequence == old(self).in_sequence,
            final(self).player_id == old(self).player_id,
            final(self).addr@ == old(self).addr@,
            final(self).bytes_sent == old(self).bytes_sent,
            final(self).bytes_received == old(self).bytes_received,
            final(self).state == old(self).state,
    {
        self.out_sequence = self.out_sequence.wrapping_add(1);
        self.out_sequence
    }

    /// Records that the peer was seen now.
    pub fn update_last_seen(&mut self)
        ensures
            final(self).out_sequence == old(self).out_sequence,
            final(self).in_sequence == old(self).in_sequence,
            final(self).player_id == old(self).player_id,
            final(self).addr@ == old(self).addr@,
            final(self).bytes_sent == old(self).bytes_sent,
            final(self).bytes_received == old(self).bytes_received,
            final(self).state == old(self).state,
    {
        self.last_seen = instant_now();
    }

    /// Whether an inbound sequence number is acceptable.
    pub fn is_sequence_valid(&self, sequence: u32) -> (r: bool)
        ensures
            r == sequence_accepted(self.in_sequence, sequence),
    {
        sequence == self.in_sequence.wrapping_add(1) || sequence > self.in_sequence
    }

    /// Raises the inbound sequence number to `sequence` when that is greater.
    pub fn update_in_sequence(&mut self, sequence: u32)
        ensures
            final(self).in_sequence == (if sequence > old(self).in_sequence { sequence } else { old(self).in_sequence }),
            final(self).out_sequence == old(self).out_sequence,
            final(self).player_id == old(self).player_id,
            final(self).addr@ == old(self).addr@,
            final(self).bytes_sent == old(self).bytes_sent,
            final(self).bytes_received == old(self).bytes_received,
            final(self).state == old(self).state,
    {
        if sequence > self.in_sequence {
            self.in_sequence = sequence;
        }
    }
}

/// Once a sequence number above the last one is taken, the same number is
/// refused: duplicates are dropped.
pub proof fn law_duplicate_sequence_refused(last: u32, sequence: u32)
    requires
        sequence > last,
    ensures
        !sequence_accepted(sequence, sequence),
{
}

/// UDP statistics.
#[derive(Debug, Clone, Copy, PartialEq, Eq, Structural)]
pub struct UdpStats {
    pub connection_count: usize,
    pub total_bytes_sent: u64,
    pub total_bytes_received: u64,
    pub send_buffer_size: usize,
    pub recv_buffer_size: usize,
}

/// Serializes events of a type for UDP.
pub trait BinaryEventSerializer {
    /// Serializes an event.
    fn serialize<T: Event>(&self, event: &T) -> (r: Result<Vec<u8>, EventError>)
        ensures
            match r {
                Ok(bytes) => event.event_encoding() == Some(bytes@),
                Err(e) => event.event_encoding() is None && e@ == event.event_encoding_error(),
            },
    ;

    /// The event type served.
    fn event_type(&self) -> &str;
}

/// Deserializes events of a type from UDP payloads.
pub trait BinaryEventDeserializer {
    /// The event type produced.
    type Output: Event;

    /// Deserializes an event.
    fn deserialize(&self, data: &[u8]) -> (r: Result<Self::Output, EventError>)
        ensures
            match r {
                Ok(v) => Self::Output::event_decodable(data@) && Self::Output::event_decodes(data@, v),
                Err(e) => !Self::Output::event_decodable(data@) && e@ == Self::Output::event_decoding_error(data@),
            },
    ;

    /// The event type served.
    fn event_type(&self) -> &str;
}

/// Serializer that uses the event's own serialization.
pub struct JsonBinarySerializer {
    event_type: String,
}

impl JsonBinarySerializer {
    /// The event type served.
    pub closed spec fn served_type(&self) -> Seq<char> {
        self.event_type@
    }

    /// Creates a serializer for an event type.
    pub fn new(event_type: String) -> (r: Self)
        ensures
            r.served_type() == event_type@,
    {
        JsonBinarySerializer { event_type }
    }
}

impl BinaryEventSerializer for JsonBinarySerializer {
    fn serialize<T: Event>(&self, event: &T) -> (r: Result<Vec<u8>, EventError>) {
        event.serialize()
    }

    fn event_type(&self) -> (r: &str)
        ensures
            r@ == self.served_type(),
    {
        self.event_type.as_str()
    }
}

/// Deserializer that uses the event type's own deserialization.
pub struct JsonBinaryDeserializer<T: Event> {
    event_type: String,
    _event: std::marker::PhantomData<T>,
}

impl<T: Event> JsonBinaryDeserializer<T> {
    /// The event type served.
    pub closed spec fn served_type(&self) -> Seq<char> {
        self.event_type@
    }

    /// Creates a deserializer for an event type.
    pub fn new(event_type: String) -> (r: Self)
        ensures
            r.served_type() == event_type@,
    {
        JsonBinaryDeserializer { event_type, _event: std::marker::PhantomData }
    }
}

impl<T: Event> BinaryEventDeserializer for JsonBinaryDeserializer<T> {
    type Output = T;

    fn deserialize(&self, data: &[u8]) -> (r: Result<T, EventError>) {
        T::deserialize(data)
    }

    fn event_type(&self) -> (r: &str)
        ensures
            r@ == self.served_type(),
    {
        self.event_type.as_str()
    }
}

/// The allowance for the header in a packet's total size.
pub const HEADER_SIZE_ALLOWANCE: usize = 64;

/// Whether compression is tried on a payload of `len` bytes.
pub open spec fn compression_wanted(enabled: bool, threshold: usize, len: nat) -> bool {
    enabled && len > threshold
}

/// Whether a payload is sent deflated: compression is tried on it, and the
/// fast deflate succeeds with fewer bytes than the payload.
pub open spec fn deflate_chosen(enabled: bool, threshold: usize, payload: Seq<u8>) -> bool {
    &&& compression_wanted(enabled, threshold, payload.len())
    &&& deflate_fast(payload) matches Some(c)
    &&& c.len() < payload.len()
}

/// The payload to send and its compression: the deflated bytes when
/// compression is enabled, the payload exceeds the threshold, and deflating
/// succeeds with fewer bytes; otherwise the payload as it is.
pub fn compress_payload(payload: Vec<u8>, compression_enabled: bool, compression_threshold: usize) -> (r: (
    Vec<u8>,
    UdpCompressionType,
))
    ensures
        r.1 == UdpCompressionType::Uncompressed || r.1 == UdpCompressionType::Deflate,
        r.1 == UdpCompressionType::Uncompressed ==> r.0@ == payload@,
        r.1 == UdpCompressionType::Deflate ==> deflate_fast(payload@) == Some(r.0@) && r.0@.len() < payload@.len()
            && inflate(r.0@) == Some(payload@),
        (r.1 == UdpCompressionType::Deflate) == deflate_chosen(compression_enabled, compression_threshold, payload@),
{
    if compression_enabled && payload.len() > compression_threshold {
        match deflate_compress(payload.as_slice()) {
            Some(compressed) => {
                if compressed.len() < payload.len() {
                    (compressed, UdpCompressionType::Deflate)
                } else {
                    (payload, UdpCompressionType::Uncompressed)
                }
            },
            None => (payload, UdpCompressionType::Uncompressed),
        }
    } else {
        (payload, UdpCompressionType::Uncompressed)
    }
}

/// Builds an outgoing packet: version 1, no target, the total size with the
/// header allowance (truncated to 32 bits), and the payload's checksum.
pub fn build_packet(
    event_type: &str,
    source_id: String,
    sequence: u32,
    timestamp: u64,
    payload: Vec<u8>,
    compression: UdpCompressionType,
) -> (p: UdpEventPacket)
    ensures
        p.header.version == 1,
        p.header.event_type@ == event_type@,
        p.header.source_id@ == source_id@,
        p.header.target_id@ == Seq::<char>::empty(),
        p.header.sequence == sequence,
        p.header.timestamp == timestamp,
        p.header.compression == compression,
        p.header.total_size == ((payload@.len() + 64) % 0x1_0000_0000) as u32,
        p.payload@ == payload@,
        p.checksum == checksum_spec(payload@),
{
    let checksum = calculate_checksum(payload.as_slice());
    let len = payload.len();
    let total: u32 = if len <= u32::MAX as usize - 64 {
        (len + 64) as u32
    } else {
        let wide: u64 = len as u64;
        assert(wide < 0x1_0000_0000_0000_0000);
        let t: u64 = (wide % 0x1_0000_0000 + 64) % 0x1_0000_0000;
        assert(t == (wide + 64) % 0x1_0000_0000) by (nonlinear_arith)
            requires t == (wide % 0x1_0000_0000 + 64) % 0x1_0000_0000;
        t as u32
    };
    let header = UdpEventHeader {
        version: 1,
        event_type: event_type.to_owned(),
        source_id,
        target_id: String::new(),
        sequence,
        timestamp,
        compression,
        total_size: total,
    };
    UdpEventPacket { header, payload, checksum }
}

/// Builds the packet for an event on a connection: takes the connection's
/// next sequence number, names its player as the source, compresses the
/// payload as configured, and stamps it with `timestamp`.
pub fn prepare_outgoing(
    connection: &mut UdpConnection,
    event_type: &str,
    payload: Vec<u8>,
    timestamp: u64,
    compression_enabled: bool,
    compression_threshold: usize,
) -> (p: UdpEventPacket)
    ensures
        p.header.sequence == final(connection).out_sequence,
        final(connection).out_sequence == (if old(connection).out_sequence == u32::MAX { 0 } else {
            old(connection).out_sequence + 1
        }),
        final(connection).in_sequence == old(connection).in_sequence,
        final(connection).addr@ == old(connection).addr@,
        final(connection).player_id == old(connection).player_id,
        final(connection).bytes_sent == old(connection).bytes_sent,
        final(connection).bytes_received == old(connection).bytes_received,
        p.header.version == 1,
        p.header.event_type@ == event_type@,
        p.header.source_id@ == crate::types::uuid_text(old(connection).player_id.0),
        p.header.target_id@ == Seq::<char>::empty(),
        p.header.timestamp == timestamp,
        p.header.compression == UdpCompressionType::Uncompressed ==> p.payload@ == payload@,
        p.header.compression == UdpCompressionType::Deflate ==> deflate_fast(payload@) == Some(p.payload@)
            && p.payload@.len() < payload@.len() && inflate(p.payload@) == Some(payload@),
        p.header.compression == UdpCompressionType::Uncompressed || p.header.compression == UdpCompressionType::Deflate,
        (p.header.compression == UdpCompressionType::Deflate) == deflate_chosen(
            compression_enabled,
            compression_threshold,
            payload@,
        ),
        p.header.total_size == ((p.payload@.len() + 64) % 0x1_0000_0000) as u32,
        p.checksum == checksum_spec(p.payload@),
{
    let sequence = connection.next_sequence();
    let source_id = connection.player_id.to_string();
    let (body, compression) = compress_payload(payload, compression_enabled, compression_threshold);
    build_packet(event_type, source_id, sequence, timestamp, body, compression)
}

/// What becomes of an incoming packet that passed its checksum.
#[derive(Debug, Clone, PartialEq, Eq, Structural)]
pub enum IncomingVerdict {
    /// No connection is known for the sender: the packet is ignored.
    UnknownConnection,
    /// The sequence number is a duplicate or out of order: the packet is
    /// skipped.
    OutOfSequence,
    /// The packet is accepted.
    Accepted,
}

/// Checks an incoming packet's checksum.
pub fn verify_checksum(packet: &UdpEventPacket) -> (r: Result<(), EventError>)
    ensures
        r is Ok == (checksum_spec(packet.payload@) == packet.checksum),
        r is Err ==> (r matches Err(e) && is_handler_execution(e, "Checksum mismatch"@)),
{
    let calculated = calculate_checksum(packet.payload.as_slice());
    if calculated != packet.checksum {
        return Err(EventError::HandlerExecution("Checksum mismatch".to_owned()));
    }
    Ok(())
}

/// Accepts or skips a packet from a known connection by its sequence
/// number; an accepted packet advances the inbound sequence number and
/// counts the `received` bytes.
pub fn admit_sequence(packet: &UdpEventPacket, conn: &mut UdpConnection, received: u64) -> (r: IncomingVerdict)
    requires
        old(conn).bytes_received + received <= u64::MAX,
    ensures
        final(conn).out_sequence == old(conn).out_sequence,
        final(conn).bytes_sent == old(conn).bytes_sent,
        final(conn).player_id == old(conn).player_id,
        final(conn).addr@ == old(conn).addr@,
        final(conn).state == old(conn).state,
        if sequence_accepted(old(conn).in_sequence, packet.header.sequence) {
            &&& r == IncomingVerdict::Accepted
            &&& final(conn).in_sequence == (if packet.header.sequence > old(conn).in_sequence {
                packet.header.sequence
            } else {
                old(conn).in_sequence
            })
            &&& final(conn).bytes_received == old(conn).bytes_received + received
        } else {
            &&& r == IncomingVerdict::OutOfSequence
            &&& final(conn).in_sequence == old(conn).in_sequence
            &&& final(conn).bytes_received == old(conn).bytes_received
        },
{
    if !conn.is_sequence_valid(packet.header.sequence) {
        return IncomingVerdict::OutOfSequence;
    }
    conn.update_in_sequence(packet.header.sequence);
    conn.bytes_received = conn.bytes_received + received;
    conn.update_last_seen();
    IncomingVerdict::Accepted
}

/// The payload an accepted packet carries, after decompression.
pub open spec fn delivered_payload(compression: UdpCompressionType, payload: Seq<u8>) -> Option<Seq<u8>> {
    match compression {
        UdpCompressionType::Uncompressed => Some(payload),
        UdpCompressionType::Deflate => inflate(payload),
        UdpCompressionType::Lz4 => None,
    }
}

/// Decompresses an accepted packet's payload as its header says: LZ4 is
/// not implemented and is an error; a deflate stream that does not decode
/// is an error whose message is "Decompression failed: " followed by the
/// reader's reason.
pub fn decode_payload(packet: &UdpEventPacket) -> (r: Result<Vec<u8>, EventError>)
    ensures
        match r {
            Ok(v) => delivered_payload(packet.header.compression, packet.payload@) == Some(v@),
            Err(e) => delivered_payload(packet.header.compression, packet.payload@) is None
                && (e is HandlerExecution),
        },
        packet.header.compression == UdpCompressionType::Lz4 ==> (r matches Err(e) && is_handler_execution(
            e,
            "LZ4 compression not implemented"@,
        )),
        packet.header.compression == UdpCompressionType::Deflate ==> (r matches Err(e) ==> exists|reason: Seq<char>|
            e@ == EventErrorView::HandlerExecution("Decompression failed: "@ + reason)),
{
    match packet.header.compression {
        UdpCompressionType::Uncompressed => Ok(packet.payload.clone()),
        UdpCompressionType::Deflate => match deflate_decompress(packet.payload.as_slice()) {
            Ok(v) => Ok(v),
            Err(msg) => {
                let mut text = "Decompression failed: ".to_owned();
                text.append(msg.as_str());
                assert(text@ == "Decompression failed: "@ + msg@);
                Err(EventError::HandlerExecution(text))
            },
        },
        UdpCompressionType::Lz4 => Err(EventError::HandlerExecution("LZ4 compression not implemented".to_owned())),
    }
}

/// A packet prepared for sending passes the receiver's checksum, and its
/// payload decodes to the payload that was sent.
pub proof fn law_prepared_packet_delivers(p: UdpEventPacket, payload: Seq<u8>)
    requires
        p.checksum == checksum_spec(p.payload@),
        p.header.compression == UdpCompressionType::Uncompressed ==> p.payload@ == payload,
        p.header.compression == UdpCompressionType::Deflate ==> inflate(p.payload@) == Some(payload),
        p.header.compression == UdpCompressionType::Uncompressed || p.header.compression == UdpCompressionType::Deflate,
    ensures
        checksum_spec(p.payload@) == p.checksum,
        delivered_payload(p.header.compression, p.payload@) == Some(payload),
{
}

} // verus!
