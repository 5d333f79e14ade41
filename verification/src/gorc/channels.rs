//! Replication channels, priorities, replication layers and the registry of
//! replicated object types.

use vstd::prelude::*;
use crate::text::{str_eq, push_decimal, decimal_text};
use vstd::string::StringExecFns;
use crate::utils::{instant_now, measure_gap, measured_gap, NANOS_PER_MILLI};

verus! {

/// Compression algorithms available for replication data
#[derive(Debug, Clone, Copy, PartialEq, Eq, Structural)]
pub enum CompressionType {
    /// No compression - fastest but largest payload
    Uncompressed,
    /// LZ4 compression - good balance of speed and size
    Lz4,
    /// Zlib compression - smaller payload but slower
    Zlib,
    /// Delta compression - only send changes from previous state
    Delta,
    /// Quantized compression - reduce precision for smaller payload
    Quantized,
    /// High compression - maximum compression for low-priority data
    High,
    /// Custom game-specific compression
    Custom(u8),
}

/// Priority levels for replication data, from the most to the least urgent.
#[derive(Debug, Clone, Copy, PartialEq, Eq, Hash, Structural)]
pub enum ReplicationPriority {
    /// Critical data that must be delivered immediately
    Critical,
    /// Important data with high priority
    High,
    /// Normal priority data
    Normal,
    /// Low priority data that can be delayed
    Low,
}

/// The rank of a priority: 0 for `Critical` up to 3 for `Low`.
pub open spec fn priority_rank_spec(p: ReplicationPriority) -> nat {
    match p {
        ReplicationPriority::Critical => 0,
        ReplicationPriority::High => 1,
        ReplicationPriority::Normal => 2,
        ReplicationPriority::Low => 3,
    }
}

impl ReplicationPriority {
    /// The rank of this priority: 0 for `Critical` up to 3 for `Low`; a lower
    /// rank is more urgent.
    pub fn rank(&self) -> (r: u8)
        ensures
            r == priority_rank_spec(*self),
    {
        match self {
            ReplicationPriority::Critical => 0,
            ReplicationPriority::High => 1,
            ReplicationPriority::Normal => 2,
            ReplicationPriority::Low => 3,
        }
    }

    /// Whether this priority is strictly more urgent than `other`.
    pub fn is_more_urgent_than(&self, other: &ReplicationPriority) -> (r: bool)
        ensures
            r == (priority_rank_spec(*self) < priority_rank_spec(*other)),
    {
        self.rank() < other.rank()
    }
}

/// The priority that a replication layer on a channel gets: channel 0 is
/// critical, 1 high, 2 normal, and every other channel low.
pub open spec fn channel_priority_spec(channel: u8) -> ReplicationPriority {
    if channel == 0 {
        ReplicationPriority::Critical
    } else if channel == 1 {
        ReplicationPriority::High
    } else if channel == 2 {
        ReplicationPriority::Normal
    } else {
        ReplicationPriority::Low
    }
}

/// The priority of a replication layer on a channel.
pub fn priority_for_channel(channel: u8) -> (p: ReplicationPriority)
    ensures
        p == channel_priority_spec(channel),
{
    match channel {
        0 => ReplicationPriority::Critical,
        1 => ReplicationPriority::High,
        2 => ReplicationPriority::Normal,
        _ => ReplicationPriority::Low,
    }
}

/// Mineral types for game objects like asteroids
#[derive(Debug, Clone)]
pub enum MineralType {
    Iron,
    Copper,
    Gold,
    Platinum,
    Uranium,
    Rare(String),
}

impl MineralType {
    /// The default mineral, iron.
    pub fn default_mineral() -> (m: Self)
        ensures
            m is Iron,
    {
        MineralType::Iron
    }
}

/// Errors that can occur in the GORC system
#[derive(Debug)]
pub enum GorcError {
    /// Channel not found
    ChannelNotFound(u8),
    /// Duplicate channel in layer configuration
    DuplicateChannel(u8),
    /// Validation failed
    ValidationFailed(String),
    /// Configuration error
    ConfigurationError(String),
    /// Serialization error
    SerializationError(String),
}

/// The text of a GORC error.
pub open spec fn gorc_error_text(e: GorcError) -> Seq<char> {
    match e {
        GorcError::ChannelNotFound(c) => "Channel "@ + decimal_text(c as nat) + " not found"@,
        GorcError::DuplicateChannel(c) => "Duplicate channel "@ + decimal_text(c as nat) + " in replication layers"@,
        GorcError::ValidationFailed(m) => "Validation failed: "@ + m@,
        GorcError::ConfigurationError(m) => "Configuration error: "@ + m@,
        GorcError::SerializationError(m) => "Serialization error: "@ + m@,
    }
}

impl GorcError {
    /// The text of the error.
    pub fn to_string(&self) -> (s: String)
        ensures
            s@ == gorc_error_text(*self),
    {
        match self {
            GorcError::ChannelNotFound(c) => {
                let mut s = "Channel ".to_owned();
                push_decimal(&mut s, *c as u64);
                s.append(" not found");
                s
            },
            GorcError::DuplicateChannel(c) => {
                let mut s = "Duplicate channel ".to_owned();
                push_decimal(&mut s, *c as u64);
                s.append(" in replication layers");
                s
            },
            GorcError::ValidationFailed(m) => {
                let mut s = "Validation failed: ".to_owned();
                s.append(m.as_str());
                s
            },
            GorcError::ConfigurationError(m) => {
                let mut s = "Configuration error: ".to_owned();
                s.append(m.as_str());
                s
            },
            GorcError::SerializationError(m) => {
                let mut s = "Serialization error: ".to_owned();
                s.append(m.as_str());
                s
            },
        }
    }
}

/// The first position `j` in `channels` whose channel already occurs earlier.
pub open spec fn first_repeat(channels: Seq<u8>, j: int) -> bool {
    &&& 0 <= j < channels.len()
    &&& exists|i: int| 0 <= i < j && channels[i] == channels[j]
    &&& forall|k: int, i: int| 0 <= i < k < j ==> channels[i] != channels[k]
}

/// Checks that the layers of an object use distinct channels, as
/// `ReplicationLayers::validate` does: the layers are scanned in order and
/// the first channel seen a second time is reported.
pub fn validate_layer_channels(channels: &Vec<u8>) -> (r: Result<(), GorcError>)
    ensures
        r is Ok <==> (forall|k: int, i: int| 0 <= i < k < channels@.len() ==> channels@[i] != channels@[k]),
        r matches Err(e) ==> exists|j: int| first_repeat(channels@, j) && e == GorcError::DuplicateChannel(channels@[j]),
{
    let mut seen: Vec<bool> = Vec::new();
    let mut c: usize = 0;
    while c < 256
        invariant
            c <= 256,
            seen@.len() == c,
            forall|x: int| 0 <= x < c ==> !seen@[x],
        decreases 256 - c,
    {
        seen.push(false);
        c = c + 1;
    }
    let mut j: usize = 0;
    while j < channels.len()
        invariant
            j <= channels@.len(),
            seen@.len() == 256,
            forall|k: int, i: int| 0 <= i < k < j ==> channels@[i] != channels@[k],
            forall|x: int| 0 <= x < 256 ==> (seen@[x] <==> exists|i: int| 0 <= i < j && channels@[i] == x),
        decreases channels@.len() - j,
    {
        let ch = channels[j];
        if seen[ch as usize] {
            assert(first_repeat(channels@, j as int));
            return Err(GorcError::DuplicateChannel(ch));
        }
        seen.set(ch as usize, true);
        assert forall|x: int| 0 <= x < 256 implies (seen@[x] <==> exists|i: int| 0 <= i < j + 1 && channels@[i] == x) by {
            if x == ch as int {
                assert(channels@[j as int] == x);
            }
        }
        j = j + 1;
    }
    Ok(())
}

/// Statistics for a replication channel. The two averages are `f32` values
/// held by their bit patterns; the library only carries them.
#[derive(Debug, Clone, Copy, PartialEq, Eq, Structural)]
pub struct ChannelStats {
    /// Number of updates sent through this channel
    pub updates_sent: u64,
    /// Total bytes transmitted
    pub bytes_transmitted: u64,
    /// Number of subscribers
    pub subscriber_count: usize,
    /// Bit pattern of the average update frequency achieved
    pub avg_frequency_bits: u32,
    /// Peak subscriber count
    pub peak_subscriber_count: usize,
    /// Bit pattern of the average latency for this channel (milliseconds)
    pub avg_latency_ms_bits: u32,
}

impl ChannelStats {
    /// Statistics with every counter at zero (and both averages 0.0).
    pub open spec fn zero() -> ChannelStats {
        ChannelStats {
            updates_sent: 0,
            bytes_transmitted: 0,
            subscriber_count: 0,
            avg_frequency_bits: 0,
            peak_subscriber_count: 0,
            avg_latency_ms_bits: 0,
        }
    }
}

impl Default for ChannelStats {
    /// Statistics with every counter at zero (and both averages 0.0).
    fn default() -> (s: Self)
        ensures
            s == ChannelStats::zero(),
    {
        ChannelStats {
            updates_sent: 0,
            bytes_transmitted: 0,
            subscriber_count: 0,
            avg_frequency_bits: 0,
            peak_subscriber_count: 0,
            avg_latency_ms_bits: 0,
        }
    }
}

impl ChannelStats {
    /// Records a subscriber count and raises the peak when it is exceeded.
    pub fn update_subscriber_count(&mut self, count: usize)
        ensures
            *final(self) == (ChannelStats {
                subscriber_count: count,
                peak_subscriber_count: if count > old(self).peak_subscriber_count {
                    count
                } else {
                    old(self).peak_subscriber_count
                },
                ..*old(self)
            }),
    {
        self.subscriber_count = count;
        if count > self.peak_subscriber_count {
            self.peak_subscriber_count = count;
        }
    }
}

/// The abstract value of a replication layer.
pub struct LayerView {
    pub channel: u8,
    pub radius_bits: u32,
    pub frequency_bits: u32,
    pub properties: Seq<String>,
    pub compression: CompressionType,
    pub priority: ReplicationPriority,
}

/// Configuration for a replication layer within a channel.
///
/// The radius and the target frequency are `f32` values held by their bit
/// patterns (`f32::to_bits`): the library moves them around and leaves any
/// arithmetic on them to its caller.
#[derive(Debug)]
pub struct ReplicationLayer {
    /// Channel number (0-3)
    pub channel: u8,
    /// Bit pattern of the maximum transmission radius for this layer
    pub radius_bits: u32,
    /// Bit pattern of the target frequency in Hz
    pub frequency_bits: u32,
    /// Properties to replicate at this layer
    pub properties: Vec<String>,
    /// Compression type for this layer
    pub compression: CompressionType,
    /// Priority level for this layer
    pub priority: ReplicationPriority,
}

impl View for ReplicationLayer {
    type V = LayerView;

    open spec fn view(&self) -> LayerView {
        LayerView {
            channel: self.channel,
            radius_bits: self.radius_bits,
            frequency_bits: self.frequency_bits,
            properties: self.properties@,
            compression: self.compression,
            priority: self.priority,
        }
    }
}

/// A copy of a list of strings.
fn copy_strings(v: &Vec<String>) -> (r: Vec<String>)
    ensures
        r@ == v@,
{
    let mut r: Vec<String> = Vec::new();
    let mut i: usize = 0;
    while i < v.len()
        invariant
            i <= v@.len(),
            r@ == v@.take(i as int),
        decreases v@.len() - i,
    {
        r.push(v[i].clone());
        assert(v@.take(i as int + 1) =~= v@.take(i as int).push(v@[i as int]));
        i = i + 1;
    }
    assert(v@.take(i as int) =~= v@);
    r
}

impl Clone for ReplicationLayer {
    fn clone(&self) -> (r: Self)
        ensures
            r@ == self@,
    {
        ReplicationLayer {
            channel: self.channel,
            radius_bits: self.radius_bits,
            frequency_bits: self.frequency_bits,
            properties: copy_strings(&self.properties),
            compression: self.compression,
            priority: self.priority,
        }
    }
}

/// Whether a list of properties names `property`.
pub open spec fn names_property(properties: Seq<String>, property: Seq<char>) -> bool {
    exists|i: int| 0 <= i < properties.len() && #[trigger] properties[i]@ == property
}

impl ReplicationLayer {
    /// Creates a new replication layer; its priority follows from its
    /// channel (see `priority_for_channel`).
    pub fn new(
        channel: u8,
        radius_bits: u32,
        frequency_bits: u32,
        properties: Vec<String>,
        compression: CompressionType,
    ) -> (l: Self)
        ensures
            l.channel == channel,
            l.radius_bits == radius_bits,
            l.frequency_bits == frequency_bits,
            l.properties@ == properties@,
            l.compression == compression,
            l.priority == channel_priority_spec(channel),
    {
        ReplicationLayer {
            channel,
            radius_bits,
            frequency_bits,
            properties,
            compression,
            priority: priority_for_channel(channel),
        }
    }

    /// Check if this layer should replicate a specific property
    pub fn replicates_property(&self, property: &str) -> (r: bool)
        ensures
            r == names_property(self.properties@, property@),
    {
        let mut i: usize = 0;
        while i < self.properties.len()
            invariant
                i <= self.properties@.len(),
                forall|k: int| 0 <= k < i ==> self.properties@[k]@ != property@,
            decreases self.properties@.len() - i,
        {
            if str_eq(self.properties[i].as_str(), property) {
                return true;
            }
            i = i + 1;
        }
        false
    }

    /// Estimated data size for this layer: 32 bytes per property plus 64
    /// bytes of overhead.
    pub fn estimated_data_size(&self) -> (n: usize)
        requires
            self.properties@.len() * 32 + 64 <= usize::MAX,
        ensures
            n == self.properties@.len() * 32 + 64,
    {
        self.properties.len() * 32 + 64
    }
}

/// The channels of a list of layers, in order.
pub open spec fn layer_channels(layers: Seq<ReplicationLayer>) -> Seq<u8> {
    layers.map_values(|l: ReplicationLayer| l.channel)
}

/// The position of the first layer on `channel`, if any.
pub open spec fn first_layer_on(layers: Seq<ReplicationLayer>, channel: u8) -> Option<int> {
    if exists|i: int| 0 <= i < layers.len() && layers[i].channel == channel {
        Some(choose|i: int| 0 <= i < layers.len() && layers[i].channel == channel
            && forall|k: int| 0 <= k < i ==> layers[k].channel != channel)
    } else {
        None
    }
}

/// Builder for the replication layers of an object type.
#[derive(Debug)]
pub struct ReplicationLayers {
    layers: Vec<ReplicationLayer>,
}

impl View for ReplicationLayers {
    type V = Seq<ReplicationLayer>;

    closed spec fn view(&self) -> Seq<ReplicationLayer> {
        self.layers@
    }
}

impl ReplicationLayers {
    /// Creates a new empty builder
    pub fn new() -> (r: Self)
        ensures
            r@.len() == 0,
    {
        ReplicationLayers { layers: Vec::new() }
    }

    /// Adds a replication layer and returns the builder for chaining
    pub fn add_layer(self, layer: ReplicationLayer) -> (r: Self)
        ensures
            r@ == self@.push(layer),
    {
        let mut layers = self.layers;
        layers.push(layer);
        ReplicationLayers { layers }
    }

    /// Gets all layers as a vector
    pub fn into_layers(self) -> (v: Vec<ReplicationLayer>)
        ensures
            v@ == self@,
    {
        self.layers
    }

    /// Gets a reference to all layers
    pub fn layers(&self) -> (s: &[ReplicationLayer])
        ensures
            s@ == self@,
    {
        self.layers.as_slice()
    }

    /// Gets the number of layers
    pub fn len(&self) -> (n: usize)
        ensures
            n == self@.len(),
    {
        self.layers.len()
    }

    /// Returns true if there are no layers
    pub fn is_empty(&self) -> (r: bool)
        ensures
            r == (self@.len() == 0),
    {
        self.layers.len() == 0
    }

    /// Validates that all layers have different channels; the first channel
    /// met a second time is reported.
    pub fn validate(&self) -> (r: Result<(), GorcError>)
        ensures
            r is Ok <==> (forall|k: int, i: int| 0 <= i < k < self@.len() ==> self@[i].channel != self@[k].channel),
            r matches Err(e) ==> exists|j: int| first_repeat(layer_channels(self@), j)
                && e == GorcError::DuplicateChannel(self@[j].channel),
    {
        let mut channels: Vec<u8> = Vec::new();
        let mut i: usize = 0;
        while i < self.layers.len()
            invariant
                i <= self.layers@.len(),
                channels@ == layer_channels(self.layers@).take(i as int),
            decreases self.layers@.len() - i,
        {
            channels.push(self.layers[i].channel);
            assert(layer_channels(self.layers@).take(i as int + 1) =~= layer_channels(self.layers@).take(i as int).push(
                self.layers@[i as int].channel,
            ));
            i = i + 1;
        }
        assert(layer_channels(self.layers@).take(i as int) =~= layer_channels(self.layers@));
        let r = validate_layer_channels(&channels);
        proof {
            assert forall|a: int| 0 <= a < self@.len() implies channels@[a] == #[trigger] self@[a].channel by {}
            if r is Ok {
                assert forall|k: int, a: int| 0 <= a < k < self@.len() implies self@[a].channel
                    != self@[k].channel by {
                    assert(channels@[a] != channels@[k]);
                }
            } else {
                let k0 = choose|k: int, a: int| 0 <= a < k < channels@.len() && channels@[a] == channels@[k];
                assert(self@[k0.1].channel == self@[k0.0].channel);
            }
        }
        r
    }

    /// Gets the first layer on a channel
    pub fn get_layer(&self, channel: u8) -> (r: Option<&ReplicationLayer>)
        ensures
            match first_layer_on(self@, channel) {
                Some(i) => r == Some(&self@[i]),
                None => r is None,
            },
    {
        let mut i: usize = 0;
        while i < self.layers.len()
            invariant
                i <= self.layers@.len(),
                forall|k: int| 0 <= k < i ==> self.layers@[k].channel != channel,
            decreases self.layers@.len() - i,
        {
            if self.layers[i].channel == channel {
                assert(exists|j: int| 0 <= j < self@.len() && self@[j].channel == channel);
                let ghost c = choose|j: int| 0 <= j < self@.len() && self@[j].channel == channel
                    && forall|k: int| 0 <= k < j ==> self@[k].channel != channel;
                assert(c == i as int) by {
                    if c < i as int {
                    } else if c > i as int {
                        assert(self@[i as int].channel == channel);
                    }
                }
                return Some(&self.layers[i]);
            }
            i = i + 1;
        }
        None
    }
}

/// A copy of a list of layers, layer by layer.
fn copy_layers(v: &Vec<ReplicationLayer>) -> (r: Vec<ReplicationLayer>)
    ensures
        r@.len() == v@.len(),
        forall|i: int| 0 <= i < v@.len() ==> (#[trigger] r@[i])@ == v@[i]@,
{
    let mut r: Vec<ReplicationLayer> = Vec::new();
    let mut i: usize = 0;
    while i < v.len()
        invariant
            i <= v@.len(),
            r@.len() == i,
            forall|k: int| 0 <= k < i ==> (#[trigger] r@[k])@ == v@[k]@,
        decreases v@.len() - i,
    {
        r.push(v[i].clone());
        i = i + 1;
    }
    r
}

/// Replication channel configuration and state.
///
/// The target frequency range is a pair of `f32` values (minimum, maximum)
/// held by their bit patterns.
#[derive(Debug)]
pub struct ReplicationChannel {
    /// Channel number (0-3)
    pub id: u8,
    /// Name of the channel
    pub name: String,
    /// Description of the channel's purpose
    pub description: String,
    /// Bit patterns of the target frequency range (minimum, maximum)
    pub frequency_range_bits: (u32, u32),
    /// Layers configured for this channel
    pub layers: Vec<ReplicationLayer>,
    /// Last update timestamp
    pub last_update: Option<tokio::time::Instant>,
    /// Statistics for this channel
    pub stats: ChannelStats,
    /// Whether this channel is currently active
    pub active: bool,
}

impl Clone for ReplicationChannel {
    fn clone(&self) -> (r: Self)
        ensures
            r.id == self.id,
            r.name@ == self.name@,
            r.description@ == self.description@,
            r.frequency_range_bits == self.frequency_range_bits,
            r.layers@.len() == self.layers@.len(),
            forall|i: int| 0 <= i < self.layers@.len() ==> (#[trigger] r.layers@[i])@ == self.layers@[i]@,
            r.last_update == self.last_update,
            r.stats == self.stats,
            r.active == self.active,
    {
        let last_update = match &self.last_update {
            Some(t) => Some(t.clone()),
            None => None,
        };
        ReplicationChannel {
            id: self.id,
            name: self.name.clone(),
            description: self.description.clone(),
            frequency_range_bits: self.frequency_range_bits,
            layers: copy_layers(&self.layers),
            last_update,
            stats: self.stats,
            active: self.active,
        }
    }
}

impl ReplicationChannel {
    /// Creates a new, active replication channel with no layers that was
    /// never updated.
    pub fn new(id: u8, name: String, description: String, frequency_range_bits: (u32, u32)) -> (c: Self)
        ensures
            c.id == id,
            c.name@ == name@,
            c.description@ == description@,
            c.frequency_range_bits == frequency_range_bits,
            c.layers@.len() == 0,
            c.last_update is None,
            c.stats == ChannelStats::zero(),
            c.active,
    {
        ReplicationChannel {
            id,
            name,
            description,
            frequency_range_bits,
            layers: Vec::new(),
            last_update: None,
            stats: ChannelStats::default(),
            active: true,
        }
    }

    /// Adds a replication layer to this channel; a layer meant for another
    /// channel is left out.
    pub fn add_layer(&mut self, layer: ReplicationLayer)
        ensures
            final(self).layers@ == if layer.channel == old(self).id {
                old(self).layers@.push(layer)
            } else {
                old(self).layers@
            },
            final(self).id == old(self).id,
            final(self).name == old(self).name,
            final(self).description == old(self).description,
            final(self).frequency_range_bits == old(self).frequency_range_bits,
            final(self).last_update == old(self).last_update,
            final(self).stats == old(self).stats,
            final(self).active == old(self).active,
    {
        if layer.channel == self.id {
            self.layers.push(layer);
        }
    }

    /// Whether the channel is ready for an update when `elapsed_ns`
    /// nanoseconds have passed since its last update: an inactive channel
    /// never is; a channel never updated always is; otherwise at least
    /// `min_interval_ms` milliseconds (the interval of the maximum target
    /// frequency) must have passed.
    pub fn is_ready_at(&self, elapsed_ns: u128, min_interval_ms: u64) -> (r: bool)
        ensures
            r == (self.active && (self.last_update is None || elapsed_ns >= min_interval_ms * NANOS_PER_MILLI)),
    {
        if !self.active {
            return false;
        }
        match &self.last_update {
            None => true,
            Some(_) => elapsed_ns >= (min_interval_ms as u128) * NANOS_PER_MILLI,
        }
    }

    /// Whether the channel is ready for an update now: what
    /// [`ReplicationChannel::is_ready_at`] answers for the time passed since
    /// the last update, as the clock reads it.
    pub fn is_ready_for_update(&self, min_interval_ms: u64) -> (r: bool)
        ensures
            exists|elapsed_ns: u128| r == self.is_ready_at_spec(elapsed_ns, min_interval_ms),
            !self.active ==> !r,
            self.active && self.last_update is None ==> r,
            self.active && min_interval_ms == 0 ==> r,
            self.last_update matches Some(last) ==> exists|now: tokio::time::Instant, elapsed_ns: u128| {
                &&& measured_gap(now, last, elapsed_ns)
                &&& r == self.is_ready_at_spec(elapsed_ns, min_interval_ms)
            },
    {
        let elapsed_ns: u128 = match &self.last_update {
            Some(last) => measure_gap(&instant_now(), last),
            None => 0,
        };
        let r = self.is_ready_at(elapsed_ns, min_interval_ms);
        assert(r == self.is_ready_at_spec(elapsed_ns, min_interval_ms));
        r
    }

    /// What [`ReplicationChannel::is_ready_at`] answers.
    pub open spec fn is_ready_at_spec(&self, elapsed_ns: u128, min_interval_ms: u64) -> bool {
        self.active && (self.last_update is None || elapsed_ns >= min_interval_ms * NANOS_PER_MILLI)
    }

    /// An active channel is ready for an update exactly when it was never
    /// updated or the time measured since its last update reaches the
    /// interval.
    pub proof fn law_ready_after_interval(&self, min_interval_ms: u64, now: tokio::time::Instant, elapsed_ns: u128)
        requires
            self.active,
            self.last_update matches Some(last) && measured_gap(now, last, elapsed_ns),
        ensures
            self.is_ready_at_spec(elapsed_ns, min_interval_ms) == (elapsed_ns >= min_interval_ms * NANOS_PER_MILLI),
    {
    }

    /// Marks the channel as updated now and counts the update
    pub fn mark_updated(&mut self)
        requires
            old(self).stats.updates_sent < u64::MAX,
        ensures
            final(self).last_update is Some,
            final(self).stats == (ChannelStats { updates_sent: (old(self).stats.updates_sent + 1) as u64, ..old(self).stats }),
            final(self).id == old(self).id,
            final(self).name == old(self).name,
            final(self).description == old(self).description,
            final(self).layers == old(self).layers,
            final(self).frequency_range_bits == old(self).frequency_range_bits,
            final(self).active == old(self).active,
    {
        self.last_update = Some(instant_now());
        self.stats.updates_sent = self.stats.updates_sent + 1;
    }

    /// Sets the channel active/inactive
    pub fn set_active(&mut self, active: bool)
        ensures
            *final(self) == (ReplicationChannel { active, ..*old(self) }),
    {
        self.active = active;
    }
}

/// The views of a list of layers.
pub open spec fn layer_views(ls: Seq<ReplicationLayer>) -> Seq<LayerView> {
    ls.map_values(|l: ReplicationLayer| l@)
}

/// The channels of a list of layer views, in order.
pub open spec fn view_channels(ls: Seq<LayerView>) -> Seq<u8> {
    ls.map_values(|l: LayerView| l.channel)
}

/// No channel occurs twice.
pub open spec fn distinct_channels(chs: Seq<u8>) -> bool {
    forall|k: int, i: int| 0 <= i < k < chs.len() ==> chs[i] != chs[k]
}

/// The first channel that occurs a second time (meaningful when the
/// channels are not distinct).
pub open spec fn first_repeated_channel(chs: Seq<u8>) -> u8 {
    chs[choose|j: int| first_repeat(chs, j)]
}

/// Only one position is the first to repeat a channel.
proof fn lemma_first_repeat_unique(chs: Seq<u8>, j1: int, j2: int)
    requires
        first_repeat(chs, j1),
        first_repeat(chs, j2),
    ensures
        j1 == j2,
{
    if j1 < j2 {
        let i = choose|i: int| 0 <= i < j1 && chs[i] == chs[j1];
        assert(chs[i] != chs[j1]);
    } else if j2 < j1 {
        let i = choose|i: int| 0 <= i < j2 && chs[i] == chs[j2];
        assert(chs[i] != chs[j2]);
    }
}

/// The registered object types as (name, layers) entries.
pub type ObjectEntries = Seq<(Seq<char>, Seq<LayerView>)>;

/// The position of the entry named `name`, if any.
pub open spec fn entry_named(es: ObjectEntries, name: Seq<char>) -> Option<int> {
    if exists|i: int| 0 <= i < es.len() && (#[trigger] es[i]).0 == name {
        Some(choose|i: int| 0 <= i < es.len() && (#[trigger] es[i]).0 == name)
    } else {
        None
    }
}

/// No object type occurs twice.
pub open spec fn distinct_names(es: ObjectEntries) -> bool {
    forall|i: int, j: int| 0 <= i < j < es.len() ==> es[i].0 != es[j].0
}

/// The layers registered under `name`, if any.
pub open spec fn object_layers(es: ObjectEntries, name: Seq<char>) -> Option<Seq<LayerView>> {
    match entry_named(es, name) {
        Some(i) => Some(es[i].1),
        None => None,
    }
}

/// The entries after registering `layers` under `name`: an entry of that
/// name is replaced in place, otherwise one is added at the end.
pub open spec fn with_object(es: ObjectEntries, name: Seq<char>, layers: Seq<LayerView>) -> ObjectEntries {
    match entry_named(es, name) {
        Some(i) => es.update(i, (name, layers)),
        None => es.push((name, layers)),
    }
}

/// Registering layers under a name and then looking the name up gives
/// back those layers; every other name reads as before.
pub proof fn law_register_then_lookup(es: ObjectEntries, name: Seq<char>, layers: Seq<LayerView>, other: Seq<char>)
    requires
        distinct_names(es),
    ensures
        object_layers(with_object(es, name, layers), name) == Some(layers),
        other != name ==> object_layers(with_object(es, name, layers), other) == object_layers(es, other),
{
    let after = with_object(es, name, layers);
    match entry_named(es, name) {
        Some(i) => {
            assert(after[i].0 == name);
            let c = choose|j: int| 0 <= j < after.len() && (#[trigger] after[j]).0 == name;
            assert(c == i) by {
                if c != i {
                    assert(es[c].0 == name);
                    if c < i {
                        assert(es[c].0 != es[i].0);
                    } else {
                        assert(es[i].0 != es[c].0);
                    }
                }
            }
        },
        None => {
            let n = es.len() as int;
            assert(after[n].0 == name);
            let c = choose|j: int| 0 <= j < after.len() && (#[trigger] after[j]).0 == name;
            assert(c == n) by {
                if c < n {
                    assert(es[c].0 == name);
                }
            }
        },
    }
    if other != name {
        if exists|j: int| 0 <= j < es.len() && (#[trigger] es[j]).0 == other {
            let d = choose|j: int| 0 <= j < es.len() && (#[trigger] es[j]).0 == other;
            assert(after[d] == es[d]);
            let c = choose|j: int| 0 <= j < after.len() && (#[trigger] after[j]).0 == other;
            assert(c == d) by {
                if c != d {
                    assert(after[c] == es[c]);
                    if c < d {
                        assert(es[c].0 != es[d].0);
                    } else {
                        assert(es[d].0 != es[c].0);
                    }
                }
            }
        } else {
            assert forall|j: int| 0 <= j < after.len() implies (#[trigger] after[j]).0 != other by {
                if j < es.len() {
                    assert(after[j] == es[j] || after[j].0 == name);
                }
            }
        }
    }
}

/// The text of the error that `validate_all` reports for an object type
/// whose layers repeat a channel.
pub open spec fn object_validation_text(name: Seq<char>, layers: Seq<LayerView>) -> Seq<char> {
    name + ": "@ + gorc_error_text(GorcError::DuplicateChannel(first_repeated_channel(view_channels(layers))))
}

/// `e` is a validation failure with text `text`.
pub open spec fn is_validation_failure(e: GorcError, text: Seq<char>) -> bool {
    e matches GorcError::ValidationFailed(m) && m@ == text
}

/// Statistics for the object registry (the average number of layers per
/// object, a float, is left to the caller).
#[derive(Debug, Clone, Copy, PartialEq, Eq, Structural)]
pub struct RegistryStats {
    /// Number of registrations made
    pub registered_objects: usize,
    /// Number of layers counted, one per registration
    pub total_layers: usize,
}

/// Registry of the replicated object types and their replication layers.
#[derive(Debug)]
pub struct GorcObjectRegistry {
    objects: Vec<(String, Vec<ReplicationLayer>)>,
    stats: RegistryStats,
}

impl GorcObjectRegistry {
    /// The registered object types, in registration order.
    pub closed spec fn entries(&self) -> ObjectEntries {
        self.objects@.map_values(|e: (String, Vec<ReplicationLayer>)| (e.0@, layer_views(e.1@)))
    }

    /// The registry's counters.
    pub closed spec fn counters(&self) -> RegistryStats {
        self.stats
    }

    /// No object type is registered twice.
    pub open spec fn wf(&self) -> bool {
        distinct_names(self.entries())
    }

    /// Creates a new, empty registry
    pub fn new() -> (r: Self)
        ensures
            r.wf(),
            r.entries().len() == 0,
            r.counters() == (RegistryStats { registered_objects: 0, total_layers: 0 }),
    {
        let r = GorcObjectRegistry {
            objects: Vec::new(),
            stats: RegistryStats { registered_objects: 0, total_layers: 0 },
        };
        assert(r.entries() =~= Seq::<(Seq<char>, Seq<LayerView>)>::empty());
        r
    }

    /// The position of the object type named `name`.
    fn find(&self, name: &str) -> (r: Option<usize>)
        requires
            self.wf(),
        ensures
            match r {
                Some(i) => i < self.entries().len() && entry_named(self.entries(), name@) == Some(i as int),
                None => entry_named(self.entries(), name@) is None,
            },
    {
        let mut i: usize = 0;
        while i < self.objects.len()
            invariant
                i <= self.objects@.len(),
                self.wf(),
                self.entries().len() == self.objects@.len(),
                forall|k: int| 0 <= k < i ==> (#[trigger] self.entries()[k]).0 != name@,
            decreases self.objects@.len() - i,
        {
            assert(self.entries()[i as int].0 == self.objects@[i as int].0@);
            if str_eq(self.objects[i].0.as_str(), name) {
                assert(self.entries()[i as int].0 == name@);
                let ghost c = choose|j: int| 0 <= j < self.entries().len() && (#[trigger] self.entries()[j]).0 == name@;
                assert(c == i as int) by {
                    if c < i as int {
                        assert(self.entries()[c].0 != self.entries()[i as int].0);
                    } else if c > i as int {
                        assert(self.entries()[i as int].0 != self.entries()[c].0);
                    }
                }
                return Some(i);
            }
            i = i + 1;
        }
        None
    }

    /// Registers an object type with its replication layers, replacing the
    /// layers of a type registered under the same name. Every call counts
    /// one more registration and one more layer.
    pub fn register_object(&mut self, object_name: String, layers: ReplicationLayers)
        requires
            old(self).wf(),
            old(self).counters().registered_objects < usize::MAX,
            old(self).counters().total_layers < usize::MAX,
        ensures
            final(self).wf(),
            final(self).entries() == with_object(old(self).entries(), object_name@, layer_views(layers@)),
            final(self).counters() == (RegistryStats {
                registered_objects: (old(self).counters().registered_objects + 1) as usize,
                total_layers: (old(self).counters().total_layers + 1) as usize,
            }),
    {
        let v = layers.into_layers();
        let ghost e = (object_name@, layer_views(v@));
        match self.find(object_name.as_str()) {
            Some(i) => {
                self.objects.set(i, (object_name, v));
                assert(self.entries() =~= old(self).entries().update(i as int, e));
            },
            None => {
                self.objects.push((object_name, v));
                assert(self.entries() =~= old(self).entries().push(e));
            },
        }
        self.stats.registered_objects = self.stats.registered_objects + 1;
        self.stats.total_layers = self.stats.total_layers + 1;
    }

    /// Gets a copy of the replication layers of a registered object type
    pub fn get_layers(&self, object_name: &str) -> (r: Option<Vec<ReplicationLayer>>)
        requires
            self.wf(),
        ensures
            match object_layers(self.entries(), object_name@) {
                Some(ls) => r matches Some(v) && layer_views(v@) == ls,
                None => r is None,
            },
    {
        match self.find(object_name) {
            Some(i) => {
                let v = copy_layers(&self.objects[i].1);
                assert(layer_views(v@) =~= self.entries()[i as int].1);
                Some(v)
            },
            None => None,
        }
    }

    /// Lists all registered object types, in registration order
    pub fn list_objects(&self) -> (names: Vec<String>)
        ensures
            names@.len() == self.entries().len(),
            forall|i: int| 0 <= i < names@.len() ==> (#[trigger] names@[i])@ == self.entries()[i].0,
    {
        let mut names: Vec<String> = Vec::new();
        let mut i: usize = 0;
        while i < self.objects.len()
            invariant
                i <= self.objects@.len(),
                self.entries().len() == self.objects@.len(),
                names@.len() == i,
                forall|k: int| 0 <= k < i ==> (#[trigger] names@[k])@ == self.entries()[k].0,
            decreases self.objects@.len() - i,
        {
            names.push(self.objects[i].0.clone());
            i = i + 1;
        }
        names
    }

    /// Gets registry statistics
    pub fn get_stats(&self) -> (s: RegistryStats)
        ensures
            s == self.counters(),
    {
        self.stats
    }

    /// Validates the layers of every registered object type, in
    /// registration order; the first type whose layers repeat a channel is
    /// reported by name together with the repeated channel.
    pub fn validate_all(&self) -> (r: Result<(), GorcError>)
        ensures
            r is Ok <==> forall|i: int| 0 <= i < self.entries().len()
                ==> distinct_channels(view_channels(#[trigger] self.entries()[i].1)),
            r matches Err(e) ==> exists|j: int| 0 <= j < self.entries().len()
                && (forall|k: int| 0 <= k < j ==> distinct_channels(view_channels(#[trigger] self.entries()[k].1)))
                && !distinct_channels(view_channels(self.entries()[j].1))
                && is_validation_failure(e, object_validation_text(self.entries()[j].0, self.entries()[j].1)),
    {
        let mut i: usize = 0;
        while i < self.objects.len()
            invariant
                i <= self.objects@.len(),
                self.entries().len() == self.objects@.len(),
                forall|k: int| 0 <= k < i ==> distinct_channels(view_channels(#[trigger] self.entries()[k].1)),
            decreases self.objects@.len() - i,
        {
            let layers = &self.objects[i].1;
            let mut channels: Vec<u8> = Vec::new();
            let mut j: usize = 0;
            while j < layers.len()
                invariant
                    j <= layers@.len(),
                    channels@ == view_channels(layer_views(layers@)).take(j as int),
                decreases layers@.len() - j,
            {
                channels.push(layers[j].channel);
                assert(view_channels(layer_views(layers@)).take(j as int + 1) =~= view_channels(layer_views(layers@)).take(
                    j as int,
                ).push(layers@[j as int].channel));
                j = j + 1;
            }
            assert(view_channels(layer_views(layers@)).take(j as int) =~= view_channels(layer_views(layers@)));
            assert(self.entries()[i as int].1 == layer_views(layers@));
            match validate_layer_channels(&channels) {
                Ok(()) => {},
                Err(e) => {
                    let ghost jj = choose|jj: int| first_repeat(channels@, jj) && e == GorcError::DuplicateChannel(channels@[jj]);
                    proof {
                        let c = choose|c: int| first_repeat(channels@, c);
                        lemma_first_repeat_unique(channels@, jj, c);
                        let k0 = choose|i0: int| 0 <= i0 < jj && channels@[i0] == channels@[jj];
                        assert(!distinct_channels(channels@)) by {
                            assert(channels@[k0] == channels@[jj]);
                        }
                    }
                    let mut m = self.objects[i].0.clone();
                    m.append(": ");
                    let t = e.to_string();
                    m.append(t.as_str());
                    return Err(GorcError::ValidationFailed(m));
                },
            }
            i = i + 1;
        }
        Ok(())
    }
}

/// Bit pattern of the `f32` value 1.0.
pub const F32_ONE_BITS: u32 = 0x3f80_0000;
/// Bit pattern of the `f32` value 5.0.
pub const F32_FIVE_BITS: u32 = 0x40a0_0000;
/// Bit pattern of the `f32` value 10.0.
pub const F32_TEN_BITS: u32 = 0x4120_0000;
/// Bit pattern of the `f32` value 15.0.
pub const F32_FIFTEEN_BITS: u32 = 0x4170_0000;
/// Bit pattern of the `f32` value 30.0.
pub const F32_THIRTY_BITS: u32 = 0x41f0_0000;
/// Bit pattern of the `f32` value 60.0.
pub const F32_SIXTY_BITS: u32 = 0x4270_0000;
/// Bit pattern of the `f32` value 0.8.
pub const F32_POINT_EIGHT_BITS: u32 = 0x3f4c_cccd;

/// The default target frequency range of a channel, in Hz (as bit
/// patterns): 30-60 for channel 0, 15-30 for 1, 5-15 for 2, 1-5 for 3 and
/// 1-10 for any other.
pub open spec fn default_frequency_range(id: u8) -> (u32, u32) {
    if id == 0 {
        (F32_THIRTY_BITS, F32_SIXTY_BITS)
    } else if id == 1 {
        (F32_FIFTEEN_BITS, F32_THIRTY_BITS)
    } else if id == 2 {
        (F32_FIVE_BITS, F32_FIFTEEN_BITS)
    } else if id == 3 {
        (F32_ONE_BITS, F32_FIVE_BITS)
    } else {
        (F32_ONE_BITS, F32_TEN_BITS)
    }
}

/// The default target frequency range of a channel.
pub fn default_frequency_range_bits(id: u8) -> (r: (u32, u32))
    ensures
        r == default_frequency_range(id),
{
    match id {
        0 => (F32_THIRTY_BITS, F32_SIXTY_BITS),
        1 => (F32_FIFTEEN_BITS, F32_THIRTY_BITS),
        2 => (F32_FIVE_BITS, F32_FIFTEEN_BITS),
        3 => (F32_ONE_BITS, F32_FIVE_BITS),
        _ => (F32_ONE_BITS, F32_TEN_BITS),
    }
}

/// Configuration for the GORC system. The load threshold is an `f32`
/// between 0.0 and 1.0 held by its bit pattern.
#[derive(Debug, Clone, Copy, PartialEq, Eq, Structural)]
pub struct GorcConfig {
    /// Whether to use adaptive frequency adjustment
    pub adaptive_frequency: bool,
    /// Bit pattern of the load threshold for triggering optimizations
    pub load_threshold_bits: u32,
    /// Maximum total bandwidth across all channels
    pub max_total_bandwidth: u64,
    /// Maximum total subscribers across all channels
    pub max_total_subscribers: usize,
    /// Whether to enable compression by default
    pub default_compression_enabled: bool,
    /// Default compression type
    pub default_compression_type: CompressionType,
    /// Minimum update interval to prevent spam
    pub min_update_interval_ms: u64,
}

impl Default for GorcConfig {
    /// Adaptive frequencies, a load threshold of 0.8, 100 MiB/s of
    /// bandwidth, 10000 subscribers, LZ4 compression and a 16 ms minimum
    /// interval.
    fn default() -> (c: Self)
        ensures
            c == (GorcConfig {
                adaptive_frequency: true,
                load_threshold_bits: F32_POINT_EIGHT_BITS,
                max_total_bandwidth: 104_857_600,
                max_total_subscribers: 10000,
                default_compression_enabled: true,
                default_compression_type: CompressionType::Lz4,
                min_update_interval_ms: 16,
            }),
    {
        GorcConfig {
            adaptive_frequency: true,
            load_threshold_bits: F32_POINT_EIGHT_BITS,
            max_total_bandwidth: 100 * 1024 * 1024,
            max_total_subscribers: 10000,
            default_compression_enabled: true,
            default_compression_type: CompressionType::Lz4,
            min_update_interval_ms: 16,
        }
    }
}

/// Global GORC system statistics. The average update frequency is an `f32`
/// held by its bit pattern.
#[derive(Debug, Clone, Copy, PartialEq, Eq, Structural)]
pub struct GorcStats {
    /// Total number of active subscriptions
    pub total_subscriptions: usize,
    /// Total bytes transmitted across all channels
    pub total_bytes_transmitted: u64,
    /// Bit pattern of the average update frequency across all channels
    pub avg_update_frequency_bits: u32,
    /// Number of multicast groups
    pub multicast_groups: usize,
    /// Memory usage in bytes
    pub memory_usage: usize,
    /// Number of performance optimizations applied
    pub optimizations_applied: u64,
    /// System uptime in seconds
    pub uptime_seconds: u64,
}

impl GorcStats {
    /// Statistics with every counter at zero.
    pub open spec fn zero() -> GorcStats {
        GorcStats {
            total_subscriptions: 0,
            total_bytes_transmitted: 0,
            avg_update_frequency_bits: 0,
            multicast_groups: 0,
            memory_usage: 0,
            optimizations_applied: 0,
            uptime_seconds: 0,
        }
    }
}

impl Default for GorcStats {
    /// Statistics with every counter at zero.
    fn default() -> (s: Self)
        ensures
            s == GorcStats::zero(),
    {
        GorcStats {
            total_subscriptions: 0,
            total_bytes_transmitted: 0,
            avg_update_frequency_bits: 0,
            multicast_groups: 0,
            memory_usage: 0,
            optimizations_applied: 0,
            uptime_seconds: 0,
        }
    }
}

/// The position of the channel with id `id`, if any.
pub open spec fn channel_index(cs: Seq<ReplicationChannel>, id: u8) -> Option<int> {
    if exists|i: int| 0 <= i < cs.len() && (#[trigger] cs[i]).id == id {
        Some(choose|i: int| 0 <= i < cs.len() && (#[trigger] cs[i]).id == id)
    } else {
        None
    }
}

/// The ids of the active channels, in channel order.
pub open spec fn active_ids(cs: Seq<ReplicationChannel>) -> Seq<u8>
    decreases cs.len(),
{
    if cs.len() == 0 {
        Seq::empty()
    } else {
        active_ids(cs.drop_last()) + if cs.last().active { seq![cs.last().id] } else { Seq::empty() }
    }
}

/// No channel id occurs twice.
pub open spec fn distinct_ids(cs: Seq<ReplicationChannel>) -> bool {
    forall|i: int, j: int| 0 <= i < j < cs.len() ==> cs[i].id != cs[j].id
}

/// The channels after the channel `id`, if there is one, is made active or
/// inactive.
pub open spec fn with_channel_active(cs: Seq<ReplicationChannel>, id: u8, active: bool) -> Seq<ReplicationChannel> {
    match channel_index(cs, id) {
        Some(i) => cs.update(i, ReplicationChannel { active, ..cs[i] }),
        None => cs,
    }
}

/// An id is listed as active exactly when some channel with that id is
/// active.
proof fn lemma_active_ids_contains(cs: Seq<ReplicationChannel>, x: u8)
    ensures
        active_ids(cs).contains(x) <==> exists|i: int| 0 <= i < cs.len() && (#[trigger] cs[i]).active && cs[i].id == x,
    decreases cs.len(),
{
    if cs.len() > 0 {
        let init = cs.drop_last();
        lemma_active_ids_contains(init, x);
        let tail: Seq<u8> = if cs.last().active { seq![cs.last().id] } else { Seq::empty() };
        assert(active_ids(cs) == active_ids(init) + tail);
        if active_ids(cs).contains(x) {
            let k = choose|k: int| 0 <= k < active_ids(cs).len() && active_ids(cs)[k] == x;
            if k < active_ids(init).len() {
                assert(active_ids(init)[k] == x);
                let i = choose|i: int| 0 <= i < init.len() && (#[trigger] init[i]).active && init[i].id == x;
                assert(cs[i] == init[i]);
            } else {
                assert(cs[cs.len() - 1].active && cs[cs.len() - 1].id == x);
            }
        }
        if exists|i: int| 0 <= i < cs.len() && (#[trigger] cs[i]).active && cs[i].id == x {
            let i = choose|i: int| 0 <= i < cs.len() && (#[trigger] cs[i]).active && cs[i].id == x;
            if i < cs.len() - 1 {
                assert(init[i] == cs[i]);
                let k = choose|k: int| 0 <= k < active_ids(init).len() && active_ids(init)[k] == x;
                assert(active_ids(cs)[k] == x);
            } else {
                assert(active_ids(cs)[active_ids(init).len() as int] == x);
            }
        }
    }
}

/// Enabling or disabling an existing channel shows in the list of active
/// channels: the channel is listed exactly when it was enabled.
pub proof fn law_active_channel_listing(cs: Seq<ReplicationChannel>, id: u8, active: bool)
    requires
        distinct_ids(cs),
        channel_index(cs, id) is Some,
    ensures
        active_ids(with_channel_active(cs, id, active)).contains(id) == active,
{
    let i = channel_index(cs, id)->0;
    let after = with_channel_active(cs, id, active);
    lemma_active_ids_contains(after, id);
    assert(after[i].id == id && after[i].active == active);
    if !active {
        assert forall|j: int| 0 <= j < after.len() && (#[trigger] after[j]).active implies after[j].id != id by {
            if j != i {
                assert(after[j] == cs[j]);
                if j < i {
                    assert(cs[j].id != cs[i].id);
                } else {
                    assert(cs[i].id != cs[j].id);
                }
            }
        }
    }
}

/// The position of the layer named `name`, if any.
pub open spec fn layer_named(ls: Seq<(Seq<char>, LayerView)>, name: Seq<char>) -> Option<int> {
    if exists|i: int| 0 <= i < ls.len() && (#[trigger] ls[i]).0 == name {
        Some(choose|i: int| 0 <= i < ls.len() && (#[trigger] ls[i]).0 == name)
    } else {
        None
    }
}

/// Main GORC manager: the four replication channels, the named replication
/// layers and the system's statistics and configuration.
#[derive(Debug)]
pub struct GorcManager {
    channels: Vec<ReplicationChannel>,
    layers: Vec<(String, ReplicationLayer)>,
    stats: GorcStats,
    config: GorcConfig,
}

impl GorcManager {
    /// The channels, in id order.
    pub closed spec fn channels(&self) -> Seq<ReplicationChannel> {
        self.channels@
    }

    /// The named layers, in the order their names were first added.
    pub closed spec fn named_layers(&self) -> Seq<(Seq<char>, LayerView)> {
        self.layers@.map_values(|e: (String, ReplicationLayer)| (e.0@, e.1@))
    }

    /// The system statistics.
    pub closed spec fn statistics(&self) -> GorcStats {
        self.stats
    }

    /// The configuration in force.
    pub closed spec fn configuration(&self) -> GorcConfig {
        self.config
    }

    /// Channel ids and layer names are distinct.
    pub open spec fn wf(&self) -> bool {
        &&& distinct_ids(self.channels())
        &&& forall|i: int, j: int| 0 <= i < j < self.named_layers().len()
            ==> self.named_layers()[i].0 != self.named_layers()[j].0
    }

    /// Creates a new GORC manager with the four default channels: 0
    /// "Critical", 1 "Detailed", 2 "Cosmetic" and 3 "Metadata", each with
    /// its default frequency range, active and never updated.
    pub fn new() -> (m: Self)
        ensures
            m.wf(),
            m.channels().len() == 4,
            forall|i: int| 0 <= i < 4 ==> {
                let c = #[trigger] m.channels()[i];
                &&& c.id == i
                &&& c.frequency_range_bits == default_frequency_range(i as u8)
                &&& c.layers@.len() == 0
                &&& c.last_update is None
                &&& c.stats == ChannelStats::zero()
                &&& c.active
            },
            m.channels()[0].name@ == "Critical"@,
            m.channels()[1].name@ == "Detailed"@,
            m.channels()[2].name@ == "Cosmetic"@,
            m.channels()[3].name@ == "Metadata"@,
            m.channels()[0].description@ == "Essential game state (position, health, collision)"@,
            m.channels()[1].description@ == "Important non-critical info (animations, weapons, interactions)"@,
            m.channels()[2].description@ == "Visual enhancements (particles, effects)"@,
            m.channels()[3].description@ == "Informational data (player names, achievements)"@,
            m.named_layers().len() == 0,
            m.statistics() == GorcStats::zero(),
            m.configuration() == (GorcConfig {
                adaptive_frequency: true,
                load_threshold_bits: F32_POINT_EIGHT_BITS,
                max_total_bandwidth: 104_857_600,
                max_total_subscribers: 10000,
                default_compression_enabled: true,
                default_compression_type: CompressionType::Lz4,
                min_update_interval_ms: 16,
            }),
    {
        let mut channels: Vec<ReplicationChannel> = Vec::new();
        channels.push(ReplicationChannel::new(
            0,
            "Critical".to_owned(),
            "Essential game state (position, health, collision)".to_owned(),
            default_frequency_range_bits(0),
        ));
        channels.push(ReplicationChannel::new(
            1,
            "Detailed".to_owned(),
            "Important non-critical info (animations, weapons, interactions)".to_owned(),
            default_frequency_range_bits(1),
        ));
        channels.push(ReplicationChannel::new(
            2,
            "Cosmetic".to_owned(),
            "Visual enhancements (particles, effects)".to_owned(),
            default_frequency_range_bits(2),
        ));
        channels.push(ReplicationChannel::new(
            3,
            "Metadata".to_owned(),
            "Informational data (player names, achievements)".to_owned(),
            default_frequency_range_bits(3),
        ));
        let m = GorcManager {
            channels,
            layers: Vec::new(),
            stats: GorcStats::default(),
            config: GorcConfig::default(),
        };
        assert(m.named_layers() =~= Seq::<(Seq<char>, LayerView)>::empty());
        m
    }

    /// The position of the channel with id `id`.
    fn find_channel(&self, id: u8) -> (r: Option<usize>)
        requires
            self.wf(),
        ensures
            match r {
                Some(i) => i < self.channels().len() && channel_index(self.channels(), id) == Some(i as int),
                None => channel_index(self.channels(), id) is None,
            },
    {
        let mut i: usize = 0;
        while i < self.channels.len()
            invariant
                i <= self.channels@.len(),
                self.wf(),
                forall|k: int| 0 <= k < i ==> (#[trigger] self.channels@[k]).id != id,
            decreases self.channels@.len() - i,
        {
            if self.channels[i].id == id {
                let ghost c = choose|j: int| 0 <= j < self.channels().len() && (#[trigger] self.channels()[j]).id == id;
                assert(c == i as int) by {
                    if c < i as int {
                    } else if c > i as int {
                        assert(self.channels()[i as int].id != self.channels()[c].id);
                    }
                }
                return Some(i);
            }
            i = i + 1;
        }
        None
    }

    /// Gets a copy of a specific channel
    pub fn get_channel(&self, channel_id: u8) -> (r: Option<ReplicationChannel>)
        requires
            self.wf(),
        ensures
            match channel_index(self.channels(), channel_id) {
                Some(i) => r matches Some(c) && {
                    let o = self.channels()[i];
                    &&& c.id == o.id
                    &&& c.name@ == o.name@
                    &&& c.description@ == o.description@
                    &&& c.frequency_range_bits == o.frequency_range_bits
                    &&& layer_views(c.layers@) == layer_views(o.layers@)
                    &&& c.last_update == o.last_update
                    &&& c.stats == o.stats
                    &&& c.active == o.active
                },
                None => r is None,
            },
    {
        match self.find_channel(channel_id) {
            Some(i) => {
                let c = self.channels[i].clone();
                assert(layer_views(c.layers@) =~= layer_views(self.channels@[i as int].layers@));
                Some(c)
            },
            None => None,
        }
    }

    /// Adds a named replication layer, replacing a layer of the same name
    pub fn add_layer(&mut self, layer_name: String, layer: ReplicationLayer)
        requires
            old(self).wf(),
        ensures
            final(self).wf(),
            final(self).named_layers() == match layer_named(old(self).named_layers(), layer_name@) {
                Some(i) => old(self).named_layers().update(i, (layer_name@, layer@)),
                None => old(self).named_layers().push((layer_name@, layer@)),
            },
            final(self).channels() == old(self).channels(),
            final(self).statistics() == old(self).statistics(),
            final(self).configuration() == old(self).configuration(),
    {
        let ghost e = (layer_name@, layer@);
        match self.find_layer(layer_name.as_str()) {
            Some(i) => {
                self.layers.set(i, (layer_name, layer));
                assert(self.named_layers() =~= old(self).named_layers().update(i as int, e));
            },
            None => {
                self.layers.push((layer_name, layer));
                assert(self.named_layers() =~= old(self).named_layers().push(e));
            },
        }
    }

    /// The position of the layer named `name`.
    fn find_layer(&self, name: &str) -> (r: Option<usize>)
        requires
            self.wf(),
        ensures
            match r {
                Some(i) => i < self.named_layers().len() && layer_named(self.named_layers(), name@) == Some(i as int),
                None => layer_named(self.named_layers(), name@) is None,
            },
    {
        let mut i: usize = 0;
        while i < self.layers.len()
            invariant
                i <= self.layers@.len(),
                self.wf(),
                self.named_layers().len() == self.layers@.len(),
                forall|k: int| 0 <= k < i ==> (#[trigger] self.named_layers()[k]).0 != name@,
            decreases self.layers@.len() - i,
        {
            assert(self.named_layers()[i as int].0 == self.layers@[i as int].0@);
            if str_eq(self.layers[i].0.as_str(), name) {
                let ghost c = choose|j: int| 0 <= j < self.named_layers().len() && (#[trigger] self.named_layers()[j]).0
                    == name@;
                assert(c == i as int) by {
                    if c < i as int {
                    } else if c > i as int {
                        assert(self.named_layers()[i as int].0 != self.named_layers()[c].0);
                    }
                }
                return Some(i);
            }
            i = i + 1;
        }
        None
    }

    /// Gets current GORC statistics
    pub fn get_stats(&self) -> (s: GorcStats)
        ensures
            s == self.statistics(),
    {
        self.stats
    }

    /// Replaces the configuration. When adaptive frequencies are turned
    /// off, every channel's frequency range is reset to its default.
    pub fn update_config(&mut self, new_config: GorcConfig)
        requires
            old(self).wf(),
        ensures
            final(self).wf(),
            final(self).configuration() == new_config,
            final(self).channels().len() == old(self).channels().len(),
            forall|i: int| 0 <= i < old(self).channels().len() ==> {
                let (c, o) = (#[trigger] final(self).channels()[i], old(self).channels()[i]);
                &&& c.frequency_range_bits == if new_config.adaptive_frequency {
                    o.frequency_range_bits
                } else {
                    default_frequency_range(o.id)
                }
                &&& c == ReplicationChannel { frequency_range_bits: c.frequency_range_bits, ..o }
            },
            final(self).named_layers() == old(self).named_layers(),
            final(self).statistics() == old(self).statistics(),
    {
        self.config = new_config;
        if !new_config.adaptive_frequency {
            let mut i: usize = 0;
            while i < self.channels.len()
                invariant
                    i <= self.channels@.len(),
                    self.channels@.len() == old(self).channels@.len(),
                    self.layers == old(self).layers,
                    self.stats == old(self).stats,
                    self.config == new_config,
                    !new_config.adaptive_frequency,
                    forall|k: int| 0 <= k < self.channels@.len() ==> {
                        let (c, o) = (#[trigger] self.channels@[k], old(self).channels@[k]);
                        &&& c.frequency_range_bits == if k < i { default_frequency_range(o.id) } else { o.frequency_range_bits }
                        &&& c == ReplicationChannel { frequency_range_bits: c.frequency_range_bits, ..o }
                    },
                decreases self.channels@.len() - i,
            {
                let mut c = self.channels.remove(i);
                c.frequency_range_bits = default_frequency_range_bits(c.id);
                self.channels.insert(i, c);
                i = i + 1;
            }
        }
        proof {
            assert(self.named_layers() == old(self).named_layers());
            assert forall|i: int, j: int| 0 <= i < j < self.channels().len() implies self.channels()[i].id
                != self.channels()[j].id by {
                assert(self.channels()[i].id == old(self).channels()[i].id);
                assert(self.channels()[j].id == old(self).channels()[j].id);
            }
        }
    }

    /// Enables or disables a specific channel; a channel that does not
    /// exist is reported.
    pub fn set_channel_active(&mut self, channel_id: u8, active: bool) -> (r: Result<(), GorcError>)
        requires
            old(self).wf(),
        ensures
            final(self).wf(),
            final(self).channels() == with_channel_active(old(self).channels(), channel_id, active),
            r is Ok <==> channel_index(old(self).channels(), channel_id) is Some,
            r is Err ==> r == Err::<(), GorcError>(GorcError::ChannelNotFound(channel_id)),
            final(self).named_layers() == old(self).named_layers(),
            final(self).statistics() == old(self).statistics(),
            final(self).configuration() == old(self).configuration(),
    {
        match self.find_channel(channel_id) {
            Some(i) => {
                let mut c = self.channels.remove(i);
                c.set_active(active);
                self.channels.insert(i, c);
                assert(self.channels@ =~= old(self).channels@.update(
                    i as int,
                    ReplicationChannel { active, ..old(self).channels@[i as int] },
                ));
                proof {
                    assert(self.named_layers() == old(self).named_layers());
                    assert forall|a: int, b: int| 0 <= a < b < self.channels().len() implies self.channels()[a].id
                        != self.channels()[b].id by {
                        assert(self.channels()[a].id == old(self).channels()[a].id);
                        assert(self.channels()[b].id == old(self).channels()[b].id);
                    }
                }
                Ok(())
            },
            None => Err(GorcError::ChannelNotFound(channel_id)),
        }
    }

    /// Gets the ids of the active channels
    pub fn get_active_channels(&self) -> (ids: Vec<u8>)
        ensures
            ids@ == active_ids(self.channels()),
    {
        let mut ids: Vec<u8> = Vec::new();
        let mut i: usize = 0;
        while i < self.channels.len()
            invariant
                i <= self.channels@.len(),
                ids@ == active_ids(self.channels@.take(i as int)),
            decreases self.channels@.len() - i,
        {
            assert(self.channels@.take(i as int + 1).drop_last() =~= self.channels@.take(i as int));
            if self.channels[i].active {
                ids.push(self.channels[i].id);
            }
            i = i + 1;
        }
        assert(self.channels@.take(i as int) =~= self.channels@);
        ids
    }
}

} // verus!
