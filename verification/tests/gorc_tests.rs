use horizon_event_system::gorc::object_types::ObjectTypeRegistry;
use horizon_event_system::gorc::channels::{
    priority_for_channel, validate_layer_channels, ChannelStats, CompressionType, GorcConfig, GorcError,
    GorcManager, GorcObjectRegistry, GorcStats, RegistryStats, ReplicationChannel, ReplicationLayer,
    ReplicationLayers, ReplicationPriority,
};
use horizon_event_system::gorc::defaults::{default_network_config, default_object_layers, default_zone_config};
use horizon_event_system::gorc::{GORC_VERSION, MAX_CHANNELS};
use horizon_event_system::gorc::instance::{
    player_zone_changes, should_recalculate_subscriptions, GorcObjectId, LayerCheck, ObjectSubscriptions,
};
use horizon_event_system::gorc::multicast::{
    LodLevel, MulticastError, MulticastGroup, MulticastGroupId, MulticastGroupIds, MulticastManager,
};
use horizon_event_system::gorc::network::{PriorityUpdateQueue, ReplicationUpdate};
use horizon_event_system::types::PlayerId;
use std::collections::HashSet;

#[test]
fn test_priority_queue() {
    let queue_sizes = vec![
        (ReplicationPriority::Critical, 10),
        (ReplicationPriority::High, 5),
        (ReplicationPriority::Normal, 5),
        (ReplicationPriority::Low, 5),
    ];

    let mut queue = PriorityUpdateQueue::new(queue_sizes);

    let critical_update = ReplicationUpdate {
        object_id: GorcObjectId::new(),
        object_type: "Test".to_string(),
        channel: 0,
        data: vec![1, 2, 3],
        priority: ReplicationPriority::Critical,
        sequence: 1,
        timestamp: 12345,
        compression: CompressionType::Uncompressed,
    };

    let normal_update = ReplicationUpdate {
        object_id: GorcObjectId::new(),
        object_type: "Test".to_string(),
        channel: 1,
        data: vec![4, 5, 6],
        priority: ReplicationPriority::Normal,
        sequence: 2,
        timestamp: 12346,
        compression: CompressionType::Uncompressed,
    };

    assert!(queue.push(normal_update));
    assert!(queue.push(critical_update));

    let first = queue.pop().unwrap();
    assert_eq!(first.priority, ReplicationPriority::Critical);

    let second = queue.pop().unwrap();
    assert_eq!(second.priority, ReplicationPriority::Normal);

    assert!(queue.is_empty());
}

#[test]
fn test_duplicate_channel_validation() {
    let layers = ReplicationLayers::new()
        .add_layer(ReplicationLayer::new(
            0, 50.0f32.to_bits(), 60.0f32.to_bits(), vec!["position".to_string()], CompressionType::Delta
        ))
        .add_layer(ReplicationLayer::new(
            0, 100.0f32.to_bits(), 30.0f32.to_bits(), vec!["health".to_string()], CompressionType::Lz4
        ));

    assert!(layers.validate().is_err());
}

#[test]
fn channel_lists_are_validated() {
    assert!(matches!(validate_layer_channels(&vec![0, 0]), Err(GorcError::DuplicateChannel(0))));
    assert!(matches!(validate_layer_channels(&vec![1, 2, 3, 2, 1]), Err(GorcError::DuplicateChannel(2))));
    assert!(validate_layer_channels(&vec![0, 1]).is_ok());
    assert!(validate_layer_channels(&vec![]).is_ok());
}

#[test]
fn test_replication_layer_creation() {
    let layer = ReplicationLayer::new(
        0,
        100.0f32.to_bits(),
        60.0f32.to_bits(),
        vec!["position".to_string(), "health".to_string()],
        CompressionType::Lz4,
    );

    assert_eq!(layer.channel, 0);
    assert_eq!(f32::from_bits(layer.radius_bits), 100.0);
    assert_eq!(f32::from_bits(layer.frequency_bits), 60.0);
    assert_eq!(layer.priority, ReplicationPriority::Critical);
    assert_eq!(layer.properties.len(), 2);
    assert!(layer.replicates_property("position"));
    assert!(!layer.replicates_property("velocity"));
}

#[test]
fn test_channel_update_timing() {
    let mut channel = ReplicationChannel::new(
        0,
        "Test".to_string(),
        "Test channel".to_string(),
        (30.0f32.to_bits(), 60.0f32.to_bits()),
    );
    let min_interval_ms = (1000.0 / f32::from_bits(channel.frequency_range_bits.1)) as u64;

    assert!(channel.is_ready_for_update(min_interval_ms));

    channel.mark_updated();
    assert_eq!(channel.stats.updates_sent, 1);

    // Should not be ready immediately after update
    assert!(!channel.is_ready_for_update(min_interval_ms));
}

#[test]
fn test_replication_layers_builder() {
    let layers = ReplicationLayers::new()
        .add_layer(ReplicationLayer::new(
            0, 50.0f32.to_bits(), 60.0f32.to_bits(), vec!["position".to_string()], CompressionType::Delta
        ))
        .add_layer(ReplicationLayer::new(
            1, 150.0f32.to_bits(), 30.0f32.to_bits(), vec!["animation".to_string()], CompressionType::Lz4
        ));

    let radii: Vec<f32> = layers.layers().iter().map(|l| f32::from_bits(l.radius_bits)).collect();
    assert_eq!(layers.len(), 2);
    assert_eq!(radii.iter().cloned().fold(f32::MIN, f32::max), 150.0);
    assert_eq!(radii.iter().cloned().fold(f32::MAX, f32::min), 50.0);
    assert!(layers.get_layer(0).is_some());
    assert!(layers.get_layer(2).is_none());
    assert!(layers.validate().is_ok());
}

#[test]
fn layer_sizes_and_lookup() {
    let layer = ReplicationLayer::new(
        2, 0, 0, vec!["a".to_string(), "b".to_string(), "c".to_string()], CompressionType::Uncompressed,
    );
    assert_eq!(layer.estimated_data_size(), 3 * 32 + 64);
    assert_eq!(layer.priority, ReplicationPriority::Normal);
    assert_eq!(ReplicationLayer::new(7, 0, 0, vec![], CompressionType::High).priority, ReplicationPriority::Low);
    assert_eq!(ReplicationLayer::new(7, 0, 0, vec![], CompressionType::High).estimated_data_size(), 64);

    let copy = layer.clone();
    assert_eq!(copy.channel, 2);
    assert_eq!(copy.properties, vec!["a".to_string(), "b".to_string(), "c".to_string()]);

    let layers = ReplicationLayers::new()
        .add_layer(ReplicationLayer::new(1, 1, 0, vec![], CompressionType::Lz4))
        .add_layer(ReplicationLayer::new(1, 2, 0, vec![], CompressionType::Lz4));
    assert_eq!(layers.get_layer(1).unwrap().radius_bits, 1);
    assert!(!layers.is_empty());
    assert!(ReplicationLayers::new().is_empty());
    assert!(matches!(layers.validate(), Err(GorcError::DuplicateChannel(1))));
    assert_eq!(layers.into_layers().len(), 2);
}

#[test]
fn channels_take_only_their_own_layers() {
    let mut channel = ReplicationChannel::new(1, "c".to_string(), "d".to_string(), (0, 0));
    channel.add_layer(ReplicationLayer::new(1, 0, 0, vec![], CompressionType::Lz4));
    channel.add_layer(ReplicationLayer::new(2, 0, 0, vec![], CompressionType::Lz4));
    assert_eq!(channel.layers.len(), 1);
    assert!(channel.is_ready_for_update(1000));
    channel.set_active(false);
    assert!(!channel.is_ready_for_update(0));
    channel.set_active(true);
    channel.mark_updated();
    assert!(channel.is_ready_for_update(0));
    assert!(channel.last_update.is_some());
    let copy = channel.clone();
    assert_eq!(copy.name, "c");
    assert_eq!(copy.stats.updates_sent, 1);
}

#[test]
fn channel_stats_start_at_zero() {
    let s = ChannelStats::default();
    assert_eq!(s.updates_sent, 0);
    assert_eq!(s.peak_subscriber_count, 0);
    assert_eq!(f32::from_bits(s.avg_frequency_bits), 0.0);
}

#[test]
fn test_gorc_manager_creation() {
    let manager = GorcManager::new();
    let stats = manager.get_stats();

    // Initial state should have default values
    assert_eq!(stats.total_subscriptions, 0);
    assert_eq!(stats.total_bytes_transmitted, 0);

    // Should have default channels
    assert!(manager.get_channel(0).is_some());
    assert!(manager.get_channel(1).is_some());
    assert!(manager.get_channel(2).is_some());
    assert!(manager.get_channel(3).is_some());
}

#[test]
fn manager_channels_and_configuration() {
    let mut manager = GorcManager::new();
    let critical = manager.get_channel(0).unwrap();
    assert_eq!(critical.name, "Critical");
    assert_eq!(f32::from_bits(critical.frequency_range_bits.0), 30.0);
    assert_eq!(f32::from_bits(critical.frequency_range_bits.1), 60.0);
    let metadata = manager.get_channel(3).unwrap();
    assert_eq!(metadata.name, "Metadata");
    assert_eq!(f32::from_bits(metadata.frequency_range_bits.0), 1.0);
    assert_eq!(f32::from_bits(metadata.frequency_range_bits.1), 5.0);
    assert!(manager.get_channel(4).is_none());
    assert_eq!(manager.get_active_channels(), vec![0, 1, 2, 3]);

    assert!(manager.set_channel_active(2, false).is_ok());
    assert_eq!(manager.get_active_channels(), vec![0, 1, 3]);
    assert!(matches!(manager.set_channel_active(9, true), Err(GorcError::ChannelNotFound(9))));

    let config = GorcConfig::default();
    assert!(config.adaptive_frequency);
    assert_eq!(f32::from_bits(config.load_threshold_bits), 0.8);
    assert_eq!(config.max_total_bandwidth, 100 * 1024 * 1024);
    assert_eq!(config.max_total_subscribers, 10000);
    assert_eq!(config.default_compression_type, CompressionType::Lz4);
    assert_eq!(config.min_update_interval_ms, 16);

    manager.update_config(GorcConfig { adaptive_frequency: false, ..config });
    assert_eq!(f32::from_bits(manager.get_channel(1).unwrap().frequency_range_bits.1), 30.0);
    assert!(!manager.get_channel(2).unwrap().active);

    manager.add_layer("ship".to_string(), ReplicationLayer::new(0, 0, 0, vec![], CompressionType::Lz4));
    manager.add_layer("ship".to_string(), ReplicationLayer::new(1, 0, 0, vec![], CompressionType::Lz4));
    assert_eq!(manager.get_stats(), GorcStats::default());
}

#[test]
fn registry_registers_and_validates() {
    let mut registry = GorcObjectRegistry::new();
    let good = ReplicationLayers::new()
        .add_layer(ReplicationLayer::new(0, 0, 0, vec!["position".to_string()], CompressionType::Delta))
        .add_layer(ReplicationLayer::new(3, 0, 0, vec!["name".to_string()], CompressionType::High));
    registry.register_object("Asteroid".to_string(), good);
    assert!(registry.validate_all().is_ok());
    assert_eq!(registry.get_layers("Asteroid").unwrap().len(), 2);
    assert!(registry.get_layers("Ship").is_none());

    let bad = ReplicationLayers::new()
        .add_layer(ReplicationLayer::new(2, 0, 0, vec![], CompressionType::Delta))
        .add_layer(ReplicationLayer::new(2, 0, 0, vec![], CompressionType::Delta));
    registry.register_object("Ship".to_string(), bad);
    assert_eq!(registry.list_objects(), vec!["Asteroid".to_string(), "Ship".to_string()]);
    match registry.validate_all() {
        Err(GorcError::ValidationFailed(m)) => assert_eq!(m, "Ship: Duplicate channel 2 in replication layers"),
        _ => panic!("expected a validation failure"),
    }

    registry.register_object("Ship".to_string(), ReplicationLayers::new());
    assert!(registry.validate_all().is_ok());
    assert_eq!(registry.list_objects().len(), 2);
    assert_eq!(registry.get_stats(), RegistryStats { registered_objects: 3, total_layers: 3 });
}

#[test]
fn gorc_error_texts() {
    assert_eq!(GorcError::ChannelNotFound(7).to_string(), "Channel 7 not found");
    assert_eq!(GorcError::DuplicateChannel(12).to_string(), "Duplicate channel 12 in replication layers");
    assert_eq!(GorcError::ValidationFailed("x".to_string()).to_string(), "Validation failed: x");
    assert_eq!(GorcError::ConfigurationError("y".to_string()).to_string(), "Configuration error: y");
    assert_eq!(GorcError::SerializationError("z".to_string()).to_string(), "Serialization error: z");
}

#[test]
fn channel_priorities() {
    assert_eq!(priority_for_channel(0), ReplicationPriority::Critical);
    assert_eq!(priority_for_channel(1), ReplicationPriority::High);
    assert_eq!(priority_for_channel(2), ReplicationPriority::Normal);
    assert_eq!(priority_for_channel(3), ReplicationPriority::Low);
}

#[test]
fn test_multicast_group_creation() {
    let mut ids = MulticastGroupIds::new();
    let channels: HashSet<u8> = vec![0, 1].into_iter().collect();
    let mut group = MulticastGroup::new(MulticastGroupId::new(&mut ids), "test_group".to_string(), channels, ReplicationPriority::High);

    assert_eq!(group.name, "test_group");
    assert_eq!(group.priority, ReplicationPriority::High);
    assert_eq!(group.member_count(), 0);
    assert!(group.is_empty());

    let player_id = PlayerId::new();
    assert!(group.add_member(player_id));
    assert_eq!(group.member_count(), 1);
    assert!(!group.is_empty());
}

#[test]
fn test_multicast_manager() {
    let mut manager = MulticastManager::new();
    let mut ids = MulticastGroupIds::new();
    let channels: HashSet<u8> = vec![0, 1].into_iter().collect();

    let group_id = manager.create_group(&mut ids, "test".to_string(), channels, ReplicationPriority::Normal);

    let player_id = PlayerId::new();
    assert!(manager.add_player_to_group(player_id, group_id));

    let data = b"test message";
    let result = manager.broadcast_to_group(group_id, data.len(), 0);
    assert!(result.is_ok());
    assert_eq!(result.unwrap(), 1);
}

#[test]
fn lod_priorities() {
    assert_eq!(LodLevel::Low.to_priority(), ReplicationPriority::Low);
    assert_eq!(LodLevel::Ultra.to_priority(), ReplicationPriority::Critical);
    assert_eq!(LodLevel::Minimal.to_priority(), ReplicationPriority::Low);
    assert_eq!(LodLevel::Medium.coarser(), LodLevel::Low);
    assert_eq!(LodLevel::Minimal.coarser(), LodLevel::Minimal);
}

#[test]
fn group_ids_count_up() {
    let mut ids = MulticastGroupIds::new();
    assert_eq!(MulticastGroupId::new(&mut ids), MulticastGroupId(1));
    assert_eq!(MulticastGroupId::new(&mut ids), MulticastGroupId(2));
}

#[test]
fn multicast_errors_and_membership() {
    let mut manager = MulticastManager::new();
    let mut ids = MulticastGroupIds::new();
    let channels: HashSet<u8> = vec![2].into_iter().collect();
    let g = manager.create_group(&mut ids, "g".to_string(), channels, ReplicationPriority::Low);
    assert_eq!(manager.broadcast_to_group(MulticastGroupId(99), 1, 2), Err(MulticastError::GroupNotFound(MulticastGroupId(99))));
    assert_eq!(manager.broadcast_to_group(g, 1, 0), Err(MulticastError::ChannelNotSupported(0)));
    assert_eq!(manager.get_groups_for_channel(2), vec![g]);
    assert!(manager.get_groups_for_channel(0).is_empty());
    let p = PlayerId(5);
    assert!(manager.add_player_to_group(p, g));
    assert!(!manager.add_player_to_group(p, g));
    assert_eq!(manager.get_stats().total_subscriptions, 1);
    assert_eq!(manager.broadcast_to_group(g, 10, 2), Ok(1));
    assert_eq!(manager.get_stats().bytes_sent, 10);
    assert!(manager.remove_player_from_group(p, g));
    assert!(!manager.remove_player_from_group(p, g));
    assert_eq!(manager.get_stats().total_subscriptions, 0);
    manager.cleanup_empty_groups();
    assert_eq!(manager.get_stats().total_groups, 0);
    assert!(manager.get_groups_for_channel(2).is_empty());
}

#[test]
fn group_capacity_is_enforced() {
    let mut ids = MulticastGroupIds::new();
    let mut group = MulticastGroup::new(MulticastGroupId::new(&mut ids), "small".to_string(), HashSet::new(), ReplicationPriority::Low);
    group.max_members = 1;
    assert!(group.add_member(PlayerId(1)));
    assert!(group.is_full());
    assert!(!group.add_member(PlayerId(2)));
    assert!(!group.contains_member(PlayerId(2)));
    assert!(group.remove_member(PlayerId(1)));
    assert!(group.is_empty());
}

#[test]
fn subscriptions_add_and_remove() {
    let mut subs = ObjectSubscriptions::new();
    let p = PlayerId(1);
    assert!(subs.add_subscriber(0, p));
    assert!(!subs.add_subscriber(0, p));
    assert!(subs.is_subscribed(0, p));
    assert!(!subs.is_subscribed(1, p));
    assert_eq!(subs.get_subscribers(0), vec![p]);
    assert_eq!(subs.get_subscriber_count(0), 1);
    assert_eq!(subs.get_stats().total_subscribers, 1);
    assert!(subs.remove_subscriber(0, p));
    assert!(!subs.remove_subscriber(0, p));
    assert_eq!(subs.get_stats().total_subscribers, 0);
}

#[test]
fn update_flags() {
    let mut subs = ObjectSubscriptions::new();
    assert!(!subs.needs_channel_update(1));
    subs.mark_channels_need_update(&vec![0, 1]);
    assert!(subs.needs_channel_update(1));
    subs.mark_updated(1);
    assert!(!subs.needs_channel_update(1));
    assert!(subs.needs_channel_update(0));
    assert_eq!(subs.get_stats().updates_sent, 1);
}

fn check(channel: u8, was: bool, is: bool, smallest: bool, beyond: bool) -> LayerCheck {
    LayerCheck { channel, was_in_zone: was, is_in_zone: is, smallest, beyond_smallest: beyond }
}

#[test]
fn object_move_enters_and_exits_zones() {
    let mut subs = ObjectSubscriptions::new();
    let p = PlayerId(9);
    let events = subs.apply_object_move(p, &vec![check(0, false, true, true, false), check(1, false, true, false, true)]);
    assert_eq!(events, vec![(p, 0, true), (p, 1, true)]);
    assert!(subs.is_subscribed(0, p) && subs.is_subscribed(1, p));
    // Leaving the inner zone while staying in the outer one.
    let events = subs.apply_object_move(p, &vec![check(0, true, false, true, false), check(1, true, true, false, true)]);
    assert_eq!(events, vec![(p, 0, false)]);
    assert!(!subs.is_subscribed(0, p) && subs.is_subscribed(1, p));
    assert_eq!(subs.get_stats().zone_transitions, 3);
}

#[test]
fn larger_zones_are_skipped_inside_inner_zone() {
    let mut subs = ObjectSubscriptions::new();
    let p = PlayerId(3);
    subs.add_subscriber(1, p);
    // Inner zone entered; the larger subscribed zone is skipped even though
    // its flags say the player left it.
    let events = subs.apply_object_move(p, &vec![check(0, false, true, true, false), check(1, true, false, false, true)]);
    assert_eq!(events, vec![(p, 0, true)]);
    assert!(subs.is_subscribed(1, p));
}

#[test]
fn entering_zones_of_objects() {
    let mut subs = ObjectSubscriptions::new();
    let p = PlayerId(4);
    subs.add_subscriber(0, p);
    assert_eq!(subs.enter_zones(p, &vec![(0, true), (1, true), (2, false)], false), vec![1]);
    assert_eq!(subs.enter_zones(p, &vec![(0, true), (1, true), (2, false)], true), vec![0, 1]);
    subs.resync_player(p, &vec![(0, false), (2, true)]);
    assert!(!subs.is_subscribed(0, p));
    assert!(subs.is_subscribed(2, p));
    subs.remove_player(p);
    assert!(!subs.is_subscribed(1, p) && !subs.is_subscribed(2, p));
}

#[test]
fn player_zone_changes_split_entries_and_exits() {
    let a = GorcObjectId(1);
    let b = GorcObjectId(2);
    let (entries, exits) = player_zone_changes(&vec![(a, 0, false, true), (a, 1, true, true), (b, 0, true, false), (b, 1, false, false)]);
    assert_eq!(entries, vec![(a, 0)]);
    assert_eq!(exits, vec![(b, 0)]);
    assert!(should_recalculate_subscriptions(true, false));
    assert!(!should_recalculate_subscriptions(false, false));
}

#[test]
fn object_ids_parse_and_print() {
    let id = GorcObjectId::from_str("00000000-0000-0000-0000-000000000010").unwrap();
    assert_eq!(id, GorcObjectId(16));
    assert_eq!(id.to_string(), "00000000-0000-0000-0000-000000000010");
    assert!(GorcObjectId::from_str("nope").is_err());
}

#[test]
fn default_configurations() {
    let layers = default_object_layers();
    assert_eq!(layers.len(), 4);
    assert!(layers.validate().is_ok());
    let critical = layers.get_layer(0).unwrap();
    assert_eq!(f32::from_bits(critical.radius_bits), 50.0);
    assert_eq!(f32::from_bits(critical.frequency_bits), 30.0);
    assert!(critical.replicates_property("health"));
    assert_eq!(critical.compression, CompressionType::Delta);
    let metadata = layers.get_layer(3).unwrap();
    assert_eq!(f32::from_bits(metadata.radius_bits), 1000.0);
    assert_eq!(f32::from_bits(metadata.frequency_bits), 2.0);
    assert_eq!(metadata.priority, ReplicationPriority::Low);

    let network = default_network_config();
    assert_eq!(network.max_bandwidth_per_player, 512 * 1024);
    assert_eq!(network.max_batch_size, 25);
    assert_eq!(network.compression_threshold, 128);
    assert_eq!(network.priority_queue_sizes[3], (ReplicationPriority::Low, 50));
    assert_eq!(f32::from_bits(network.target_frequencies[2].1), 10.0);

    let zones = default_zone_config();
    assert_eq!(f32::from_bits(zones.hysteresis_factor_bits), 0.1);
    assert_eq!(zones.min_update_interval_ms, 33);
    assert_eq!(zones.max_subscribers_per_zone, 50);
    assert!(zones.adaptive_sizing);
    assert_eq!(f32::from_bits(zones.adaptive_scale_factor_bits), 0.2);
    assert_eq!(MAX_CHANNELS, 4);
    assert_eq!(GORC_VERSION, "1.0.0");
}

#[test]
fn standing_still_enters_and_leaves_nothing() {
    let a = GorcObjectId(1);
    let b = GorcObjectId(2);
    let (entries, exits) = player_zone_changes(&vec![(a, 0, true, true), (a, 1, false, false), (b, 0, true, true)]);
    assert!(entries.is_empty());
    assert!(exits.is_empty());
}

#[test]
fn object_standing_still_raises_no_events() {
    let mut subs = ObjectSubscriptions::new();
    let p = PlayerId(4);
    let events = subs.apply_object_move(p, &vec![check(0, false, true, true, false), check(1, false, false, false, true)]);
    assert_eq!(events, vec![(p, 0, true)]);
    let events = subs.apply_object_move(p, &vec![check(0, true, true, true, false), check(1, false, false, false, true)]);
    assert!(events.is_empty());
    assert!(subs.is_subscribed(0, p) && !subs.is_subscribed(1, p));
    assert_eq!(subs.get_stats().zone_transitions, 1);
}

#[test]
fn channel_readiness_by_elapsed_time() {
    let mut channel = ReplicationChannel::new(0, "c".to_string(), "d".to_string(), (30.0f32.to_bits(), 60.0f32.to_bits()));
    // Never updated: ready whatever the time.
    assert!(channel.is_ready_at(0, 16));
    channel.mark_updated();
    assert!(!channel.is_ready_at(15_999_999, 16));
    assert!(channel.is_ready_at(16_000_000, 16));
    channel.set_active(false);
    assert!(!channel.is_ready_at(u128::MAX, 16));
}

#[test]
fn object_types_file_and_drop_objects() {
    let mut registry = ObjectTypeRegistry::new();
    registry.register("Ship", GorcObjectId(1));
    registry.register("Ship", GorcObjectId(2));
    registry.register("Asteroid", GorcObjectId(3));
    registry.register("Ship", GorcObjectId(1));
    let mut ships = registry.get_objects_by_type("Ship");
    ships.sort_by_key(|o| o.0);
    assert_eq!(ships, vec![GorcObjectId(1), GorcObjectId(2)]);
    assert_eq!(registry.get_objects_by_type("Asteroid"), vec![GorcObjectId(3)]);
    assert!(registry.get_objects_by_type("Station").is_empty());
    assert_eq!(registry.type_count(), 2);
    assert!(!registry.unregister("Ship", GorcObjectId(3)));
    assert!(registry.unregister("Asteroid", GorcObjectId(3)));
    assert_eq!(registry.type_count(), 1);
    assert!(registry.unregister("Ship", GorcObjectId(1)));
    assert_eq!(registry.get_objects_by_type("Ship"), vec![GorcObjectId(2)]);
    assert!(!registry.unregister("Nothing", GorcObjectId(2)));
}
