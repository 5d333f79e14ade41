use horizon_event_system::gorc::channels::{CompressionType, ReplicationPriority};
use horizon_event_system::gorc::instance::GorcObjectId;
use horizon_event_system::gorc::network::{
    drop_low_priority_updates, process_player_updates, NetworkConfig, NetworkStats, PlayerNetworkState,
    NetworkReplicationEngine, PriorityUpdateQueue, ReplicationBatch, ReplicationUpdate, UpdateScheduler,
};
use horizon_event_system::gorc::spatial::{NodeStats, QuadTreeStats};
use horizon_event_system::types::PlayerId;

fn update(priority: ReplicationPriority, sequence: u32) -> ReplicationUpdate {
    ReplicationUpdate {
        object_id: GorcObjectId(1),
        object_type: "Obj".to_string(),
        channel: 0,
        data: vec![sequence as u8],
        priority,
        sequence,
        timestamp: 0,
        compression: CompressionType::Uncompressed,
    }
}

fn limits() -> NetworkConfig {
    NetworkConfig {
        max_bandwidth_per_player: 1024 * 1024,
        max_batch_size: 2,
        max_batch_age_ms: 16,
        target_frequencies: vec![(0, 60.0f32.to_bits())],
        compression_threshold: 128,
        compression_enabled: true,
        priority_queue_sizes: vec![(ReplicationPriority::Low, 2)],
    }
}

#[test]
fn queue_orders_by_priority_then_age() {
    let mut q = PriorityUpdateQueue::new(vec![]);
    q.push(update(ReplicationPriority::Low, 1));
    q.push(update(ReplicationPriority::High, 2));
    q.push(update(ReplicationPriority::High, 3));
    q.push(update(ReplicationPriority::Critical, 4));
    assert_eq!(q.len(), 4);
    assert_eq!(q.priority_len(ReplicationPriority::High), 2);
    assert_eq!(q.peek().unwrap().sequence, 4);
    let drained: Vec<u32> = q.drain(3).iter().map(|u| u.sequence).collect();
    assert_eq!(drained, vec![4, 2, 3]);
    assert_eq!(q.pop().unwrap().sequence, 1);
    assert!(q.pop().is_none());
}

#[test]
fn full_queue_drops_its_oldest() {
    let mut q = PriorityUpdateQueue::new(vec![(ReplicationPriority::Normal, 2)]);
    q.push(update(ReplicationPriority::Normal, 1));
    q.push(update(ReplicationPriority::Normal, 2));
    q.push(update(ReplicationPriority::Normal, 3));
    assert_eq!(q.priority_len(ReplicationPriority::Normal), 2);
    assert_eq!(q.pop().unwrap().sequence, 2);
    q.clear();
    assert!(q.is_empty());
}

#[test]
fn player_updates_are_batched() {
    let config = limits();
    let mut state = PlayerNetworkState::new(PlayerId(8), &config);
    state.queue_update(update(ReplicationPriority::Normal, 1));
    state.queue_update(update(ReplicationPriority::Normal, 2));
    state.queue_update(update(ReplicationPriority::Normal, 3));
    let mut batches: Vec<ReplicationBatch> = Vec::new();
    process_player_updates(&mut state, &config, &mut batches);
    assert!(state.update_queue.is_empty());
    let mut sent: Vec<u32> = batches.iter().flat_map(|b| b.updates.iter().map(|u| u.sequence)).collect();
    if let Some(b) = state.finalize_batch() {
        sent.extend(b.updates.iter().map(|u| u.sequence));
    }
    assert_eq!(sent, vec![1, 2, 3]);
    assert!(batches.iter().all(|b| b.target_player == PlayerId(8)));
}

#[test]
fn low_priority_updates_can_be_dropped() {
    let config = limits();
    let mut state = PlayerNetworkState::new(PlayerId(1), &config);
    state.queue_update(update(ReplicationPriority::Low, 1));
    state.queue_update(update(ReplicationPriority::Low, 2));
    state.queue_update(update(ReplicationPriority::Low, 3));
    state.queue_update(update(ReplicationPriority::High, 4));
    assert_eq!(state.update_queue.priority_len(ReplicationPriority::Low), 2);
    assert_eq!(drop_low_priority_updates(&mut state), 2);
    assert_eq!(state.update_queue.len(), 1);
}

#[test]
fn batches_take_the_most_urgent_priority() {
    let config = limits();
    let mut state = PlayerNetworkState::new(PlayerId(2), &config);
    assert!(!state.add_to_batch(update(ReplicationPriority::Low, 1)));
    state.start_batch_if_needed();
    assert!(state.add_to_batch(update(ReplicationPriority::Normal, 1)));
    assert!(state.add_to_batch(update(ReplicationPriority::Critical, 2)));
    let b = state.finalize_batch().unwrap();
    assert_eq!(b.priority, ReplicationPriority::Critical);
    assert_eq!(b.batch_id, 1);
    assert!(state.finalize_batch().is_none());
    assert!(!state.should_send_batch(&config));
}

#[test]
fn batch_sending_rules() {
    let config = limits();
    let mut state = PlayerNetworkState::new(PlayerId(2), &config);
    state.start_batch_if_needed();
    let stamp = state.current_batch.as_ref().unwrap().timestamp;
    assert!(!state.should_send_batch_at(&config, stamp));
    assert!(state.should_send_batch_at(&config, stamp + 1));
    state.add_to_batch(update(ReplicationPriority::Low, 1));
    state.add_to_batch(update(ReplicationPriority::Low, 2));
    assert!(state.should_send_batch_at(&config, stamp));
    assert!(state.has_bandwidth_available(100, 100));
    assert!(!state.has_bandwidth_available(101, 100));
    assert_eq!(state.next_sequence(), 1);
}

#[test]
fn counters_record_batches() {
    let mut c = NetworkStats::default();
    c.record_batch(3, 700);
    c.record_batch(1, 50);
    assert_eq!(c.batches_sent, 2);
    assert_eq!(c.updates_sent, 4);
    assert_eq!(c.bytes_transmitted, 750);
}

#[test]
fn node_statistics_add_up() {
    let leaf = NodeStats::for_node(3, 2, None);
    assert_eq!(leaf, NodeStats { total_objects: 3, max_depth: 2, leaf_nodes: 1, internal_nodes: 0 });
    let deep = NodeStats::for_node(1, 4, None);
    let children = vec![leaf, deep, leaf, leaf];
    let parent = NodeStats::for_node(0, 1, Some(&children));
    assert_eq!(parent, NodeStats { total_objects: 10, max_depth: 4, leaf_nodes: 4, internal_nodes: 1 });
    let stats = QuadTreeStats::default();
    assert_eq!(stats.leaf_nodes, 1);
    let shaped = stats.with_shape(&parent);
    assert_eq!(shaped.current_depth, 4);
    assert_eq!(shaped.leaf_nodes, 4);
    assert_eq!(shaped.internal_nodes, 1);
    assert_eq!(shaped.total_insertions, 0);
}

#[test]
fn scheduler_tracks_objects_due_for_updates() {
    let mut scheduler = UpdateScheduler::new();
    let a = GorcObjectId::new();
    let b = GorcObjectId::new();
    scheduler.add_object(a);
    scheduler.add_object(b);

    // Objects never updated are due, in the order they were added.
    assert_eq!(scheduler.get_objects_needing_updates(), vec![a, b]);
    assert_eq!(scheduler.get_stats().update_checks, 1);
    assert_eq!(scheduler.get_stats().objects_needing_updates, 2);

    // Right after an update the object waits for its channels' intervals.
    scheduler.mark_object_updated(a);
    assert_eq!(scheduler.get_objects_needing_updates(), vec![b]);
    assert_eq!(scheduler.get_stats().objects_updated, 1);

    // Adding an object again clears its records.
    scheduler.add_object(a);
    assert_eq!(scheduler.get_objects_needing_updates(), vec![a, b]);

    scheduler.remove_object(b);
    assert_eq!(scheduler.get_objects_needing_updates(), vec![a]);

    // Marking an object that is not scheduled is still counted.
    scheduler.mark_object_updated(b);
    assert_eq!(scheduler.get_stats().objects_updated, 2);
    assert_eq!(scheduler.get_stats().update_checks, 4);
}

#[test]
fn bandwidth_usage_sums_recent_transmissions() {
    let mut state = PlayerNetworkState::new(PlayerId::new(), &limits());
    state.update_bandwidth_usage(100);
    state.update_bandwidth_usage(250);
    assert_eq!(state.bandwidth_usage, 350);
    assert_eq!(state.bandwidth_history.len(), 2);
    assert!(state.has_bandwidth_available(650, 1000));
    assert!(!state.has_bandwidth_available(651, 1000));
}

#[test]
fn test_network_config_defaults() {
    let config = NetworkConfig::default();
    assert_eq!(config.max_bandwidth_per_player, 1024 * 1024);
    assert_eq!(config.max_batch_size, 50);
    assert!(config.compression_enabled);
}

#[test]
fn network_config_default_values() {
    let config = NetworkConfig::default();
    assert_eq!(config.max_batch_age_ms, 16);
    assert_eq!(config.compression_threshold, 64);
    let freqs: Vec<(u8, f32)> = config.target_frequencies.iter().map(|(c, b)| (*c, f32::from_bits(*b))).collect();
    assert_eq!(freqs, vec![(0, 60.0), (1, 30.0), (2, 15.0), (3, 5.0)]);
    assert_eq!(
        config.priority_queue_sizes,
        vec![
            (ReplicationPriority::Critical, 1000),
            (ReplicationPriority::High, 500),
            (ReplicationPriority::Normal, 250),
            (ReplicationPriority::Low, 100),
        ]
    );
    assert_eq!(NetworkStats::default().updates_dropped, 0);
}

#[test]
fn engine_distributes_updates_to_players() {
    let mut engine = NetworkReplicationEngine::new(limits());
    let a = PlayerId(1);
    let b = PlayerId(2);
    engine.add_player(a);
    engine.add_player(b);
    assert_eq!(engine.get_active_player_count(), 2);

    // Player 3 has no state and is skipped; player 1 is listed twice.
    engine.queue_update(vec![a, PlayerId(3), a, b], update(ReplicationPriority::High, 7));
    let batches = engine.process_updates();
    let mut for_a = 0;
    let mut for_b = 0;
    for batch in &batches {
        assert!(batch.updates.iter().all(|u| u.sequence == 7));
        if batch.target_player == a {
            for_a += batch.updates.len();
        } else {
            assert_eq!(batch.target_player, b);
            for_b += batch.updates.len();
        }
    }
    for batch in engine.flush_all_batches() {
        if batch.target_player == a {
            for_a += batch.updates.len();
        } else {
            for_b += batch.updates.len();
        }
    }
    assert_eq!(for_a, 2);
    assert_eq!(for_b, 1);
    assert!(engine.flush_all_batches().is_empty());

    let sent = ReplicationBatch {
        batch_id: 1,
        updates: vec![update(ReplicationPriority::High, 7), update(ReplicationPriority::High, 7)],
        target_player: a,
        priority: ReplicationPriority::High,
        compressed_size: 0,
        timestamp: 0,
    };
    engine.update_stats(&sent, 300);
    assert_eq!(engine.get_global_stats().batches_sent, 1);
    assert_eq!(engine.get_global_stats().updates_sent, 2);
    assert_eq!(engine.get_global_stats().bytes_transmitted, 300);
    let stats_a = engine.get_player_stats(a).unwrap();
    assert_eq!(stats_a.batches_sent, 1);
    assert_eq!(stats_a.bytes_transmitted, 300);
    assert_eq!(engine.get_player_stats(b).unwrap().batches_sent, 0);
    assert!(engine.get_player_stats(PlayerId(3)).is_none());

    engine.remove_player(a);
    assert_eq!(engine.get_active_player_count(), 1);
    assert!(engine.get_player_stats(a).is_none());

    // Adding a player again gives it a fresh state.
    engine.add_player(b);
    assert_eq!(engine.get_active_player_count(), 1);
    assert_eq!(engine.get_player_stats(b).unwrap().batches_sent, 0);
    engine.update_config(NetworkConfig::default());
}

#[test]
fn update_copies_keep_every_field() {
    let u = update(ReplicationPriority::Critical, 9);
    let c = u.clone();
    assert_eq!(c.sequence, 9);
    assert_eq!(c.data, vec![9]);
    assert_eq!(c.object_type, "Obj");
    assert_eq!(c.priority, ReplicationPriority::Critical);
}

#[test]
fn push_on_a_full_queue_keeps_its_size() {
    let mut q = PriorityUpdateQueue::new(vec![(ReplicationPriority::High, 1)]);
    assert!(q.push(update(ReplicationPriority::High, 1)));
    assert_eq!(q.len(), 1);
    assert!(q.push(update(ReplicationPriority::High, 2)));
    assert_eq!(q.len(), 1);
    assert_eq!(q.priority_len(ReplicationPriority::High), 1);
    assert!(q.push(update(ReplicationPriority::Low, 3)));
    assert_eq!(q.len(), 2);
    assert_eq!(q.pop().unwrap().sequence, 2);
    assert_eq!(q.pop().unwrap().sequence, 3);
}

#[test]
fn scheduler_due_objects_by_elapsed_time() {
    let mut scheduler = UpdateScheduler::new();
    let a = GorcObjectId(1);
    let b = GorcObjectId(2);
    let c = GorcObjectId(3);
    scheduler.add_object(a);
    scheduler.add_object(b);
    scheduler.add_object(c);
    scheduler.mark_object_updated(a);
    scheduler.mark_object_updated(b);
    // Intervals: 16, 33, 66 and 200 ms for channels 0 to 3.
    let elapsed = vec![
        vec![15_999_999, 0, 0, 0],
        vec![0, 0, 0, 200_000_000],
        vec![0, 0, 0, 0],
    ];
    // `a` waits, `b` is due on its slowest channel, `c` was never updated.
    assert_eq!(scheduler.objects_due(&elapsed), vec![b, c]);
    let elapsed = vec![vec![16_000_000, 0, 0, 0], vec![0; 4], vec![0; 4]];
    assert_eq!(scheduler.objects_due(&elapsed), vec![a, c]);
}

#[test]
fn bandwidth_records_older_than_a_second_expire() {
    let mut state = PlayerNetworkState::new(PlayerId::new(), &limits());
    state.update_bandwidth_usage(100);
    state.update_bandwidth_usage(200);
    state.update_bandwidth_usage(300);
    assert_eq!(state.bandwidth_usage, 600);
    // The first record is past the window, the second exactly at it.
    state.expire_bandwidth_history(&vec![1_000_000_001, 1_000_000_000, 5]);
    assert_eq!(state.bandwidth_history.len(), 2);
    assert_eq!(state.bandwidth_usage, 500);
    // Only the first recent record stops the expiry.
    state.expire_bandwidth_history(&vec![0, 2_000_000_000]);
    assert_eq!(state.bandwidth_history.len(), 2);
    assert_eq!(state.bandwidth_usage, 500);
    state.expire_bandwidth_history(&vec![2_000_000_000, 2_000_000_000]);
    assert!(state.bandwidth_history.is_empty());
    assert_eq!(state.bandwidth_usage, 0);
}
