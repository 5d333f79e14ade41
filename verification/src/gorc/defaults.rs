//! Default configurations for replicated objects, the network engine and
//! replication zones.

use crate::gorc::channels::{
    CompressionType, ReplicationLayer, ReplicationLayers, ReplicationPriority, F32_FIFTEEN_BITS,
    F32_TEN_BITS, F32_THIRTY_BITS,
};
use crate::gorc::network::NetworkConfig;
use vstd::prelude::*;

verus! {

/// Bit pattern of the `f32` value 2.0.
pub const F32_TWO_BITS: u32 = 0x4000_0000;
/// Bit pattern of the `f32` value 50.0.
pub const F32_FIFTY_BITS: u32 = 0x4248_0000;
/// Bit pattern of the `f32` value 150.0.
pub const F32_ONE_HUNDRED_FIFTY_BITS: u32 = 0x4316_0000;
/// Bit pattern of the `f32` value 300.0.
pub const F32_THREE_HUNDRED_BITS: u32 = 0x4396_0000;
/// Bit pattern of the `f32` value 1000.0.
pub const F32_ONE_THOUSAND_BITS: u32 = 0x447a_0000;
/// Bit pattern of the `f32` value 0.1.
pub const F32_POINT_ONE_BITS: u32 = 0x3dcc_cccd;
/// Bit pattern of the `f32` value 0.2.
pub const F32_POINT_TWO_BITS: u32 = 0x3e4c_cccd;

/// Configuration of replication zones. The two factors are `f32` values
/// held by their bit patterns.
#[derive(Debug, Clone, Copy, PartialEq, Eq, Structural)]
pub struct ZoneConfig {
    /// Bit pattern of the fraction of a zone's radius used as hysteresis
    pub hysteresis_factor_bits: u32,
    /// Minimum interval between zone updates
    pub min_update_interval_ms: u64,
    /// Maximum number of subscribers per zone
    pub max_subscribers_per_zone: usize,
    /// Whether zone sizes adapt to load
    pub adaptive_sizing: bool,
    /// Bit pattern of the factor by which adaptive sizing scales zones
    pub adaptive_scale_factor_bits: u32,
}

/// A layer has the given channel, radius, frequency, property names and
/// compression.
pub open spec fn layer_matches(l: ReplicationLayer, channel: u8, radius_bits: u32, frequency_bits: u32, properties: Seq<Seq<char>>, compression: CompressionType) -> bool {
    &&& l.channel == channel
    &&& l.radius_bits == radius_bits
    &&& l.frequency_bits == frequency_bits
    &&& l.properties@.len() == properties.len()
    &&& forall|i: int| 0 <= i < properties.len() ==> (#[trigger] l.properties@[i])@ == properties[i]
    &&& l.compression == compression
}

/// Creates default replication layers for a typical game object: position
/// and health on channel 0 (radius 50, 30 Hz, delta compression), animation
/// and state on channel 1 (150, 15 Hz, LZ4), effects on channel 2 (300,
/// 10 Hz, LZ4) and name and metadata on channel 3 (1000, 2 Hz, high
/// compression).
pub fn default_object_layers() -> (layers: ReplicationLayers)
    ensures
        layers@.len() == 4,
        layer_matches(layers@[0], 0, F32_FIFTY_BITS, F32_THIRTY_BITS, seq!["position"@, "health"@], CompressionType::Delta),
        layer_matches(layers@[1], 1, F32_ONE_HUNDRED_FIFTY_BITS, F32_FIFTEEN_BITS, seq!["animation"@, "state"@], CompressionType::Lz4),
        layer_matches(layers@[2], 2, F32_THREE_HUNDRED_BITS, F32_TEN_BITS, seq!["effects"@], CompressionType::Lz4),
        layer_matches(layers@[3], 3, F32_ONE_THOUSAND_BITS, F32_TWO_BITS, seq!["name"@, "metadata"@], CompressionType::High),
{
    let mut p0: Vec<String> = Vec::new();
    p0.push("position".to_owned());
    p0.push("health".to_owned());
    let mut p1: Vec<String> = Vec::new();
    p1.push("animation".to_owned());
    p1.push("state".to_owned());
    let mut p2: Vec<String> = Vec::new();
    p2.push("effects".to_owned());
    let mut p3: Vec<String> = Vec::new();
    p3.push("name".to_owned());
    p3.push("metadata".to_owned());
    ReplicationLayers::new()
        .add_layer(ReplicationLayer::new(0, F32_FIFTY_BITS, F32_THIRTY_BITS, p0, CompressionType::Delta))
        .add_layer(ReplicationLayer::new(1, F32_ONE_HUNDRED_FIFTY_BITS, F32_FIFTEEN_BITS, p1, CompressionType::Lz4))
        .add_layer(ReplicationLayer::new(2, F32_THREE_HUNDRED_BITS, F32_TEN_BITS, p2, CompressionType::Lz4))
        .add_layer(ReplicationLayer::new(3, F32_ONE_THOUSAND_BITS, F32_TWO_BITS, p3, CompressionType::High))
}

/// Creates the default network configuration for most games: 512 KiB/s
/// per player, batches of up to 25 updates sent at least every 16 ms,
/// target frequencies of 30, 15, 10 and 2 Hz for channels 0 to 3,
/// compression above 128 bytes, and queues of 500 critical, 250 high, 100
/// normal and 50 low priority updates.
pub fn default_network_config() -> (c: NetworkConfig)
    ensures
        c.max_bandwidth_per_player == 512 * 1024,
        c.max_batch_size == 25,
        c.max_batch_age_ms == 16,
        c.target_frequencies@ == seq![(0u8, F32_THIRTY_BITS), (1u8, F32_FIFTEEN_BITS), (2u8, F32_TEN_BITS), (3u8, F32_TWO_BITS)],
        c.compression_enabled,
        c.compression_threshold == 128,
        c.priority_queue_sizes@ == seq![
            (ReplicationPriority::Critical, 500usize),
            (ReplicationPriority::High, 250usize),
            (ReplicationPriority::Normal, 100usize),
            (ReplicationPriority::Low, 50usize),
        ],
{
    let mut target_frequencies: Vec<(u8, u32)> = Vec::new();
    target_frequencies.push((0, F32_THIRTY_BITS));
    target_frequencies.push((1, F32_FIFTEEN_BITS));
    target_frequencies.push((2, F32_TEN_BITS));
    target_frequencies.push((3, F32_TWO_BITS));
    let mut priority_queue_sizes: Vec<(ReplicationPriority, usize)> = Vec::new();
    priority_queue_sizes.push((ReplicationPriority::Critical, 500));
    priority_queue_sizes.push((ReplicationPriority::High, 250));
    priority_queue_sizes.push((ReplicationPriority::Normal, 100));
    priority_queue_sizes.push((ReplicationPriority::Low, 50));
    let c = NetworkConfig {
        max_bandwidth_per_player: 512 * 1024,
        max_batch_size: 25,
        max_batch_age_ms: 16,
        target_frequencies,
        compression_enabled: true,
        compression_threshold: 128,
        priority_queue_sizes,
    };
    assert(c.target_frequencies@ =~= seq![(0u8, F32_THIRTY_BITS), (1u8, F32_FIFTEEN_BITS), (2u8, F32_TEN_BITS), (3u8, F32_TWO_BITS)]);
    assert(c.priority_queue_sizes@ =~= seq![
        (ReplicationPriority::Critical, 500usize),
        (ReplicationPriority::High, 250usize),
        (ReplicationPriority::Normal, 100usize),
        (ReplicationPriority::Low, 50usize),
    ]);
    c
}

/// Creates the default zone configuration for balanced performance: 10%
/// hysteresis, at least 33 ms between updates, at most 50 subscribers per
/// zone, and adaptive sizing by a factor of 0.2.
pub fn default_zone_config() -> (c: ZoneConfig)
    ensures
        c == (ZoneConfig {
            hysteresis_factor_bits: F32_POINT_ONE_BITS,
            min_update_interval_ms: 33,
            max_subscribers_per_zone: 50,
            adaptive_sizing: true,
            adaptive_scale_factor_bits: F32_POINT_TWO_BITS,
        }),
{
    ZoneConfig {
        hysteresis_factor_bits: F32_POINT_ONE_BITS,
        min_update_interval_ms: 33,
        max_subscribers_per_zone: 50,
        adaptive_sizing: true,
        adaptive_scale_factor_bits: F32_POINT_TWO_BITS,
    }
}

} // verus!
