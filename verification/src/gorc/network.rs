//! GORC network replication: updates, batches and the per-player priority
//! queues that feed them.

use crate::gorc::channels::{
    CompressionType, ReplicationPriority, priority_rank_spec, F32_FIFTEEN_BITS, F32_FIVE_BITS, F32_SIXTY_BITS,
    F32_THIRTY_BITS,
};
use crate::gorc::instance::GorcObjectId;
use crate::types::PlayerId;
use crate::utils::{current_timestamp, instant_now, law_no_gap_to_itself, measure_gap, measured_gap, NANOS_PER_MILLI};
use std::collections::VecDeque;
use vstd::prelude::*;

verus! {

broadcast use vstd::std_specs::vecdeque::group_vec_dequeue_axioms;

/// A single replication update for network transmission
#[derive(Debug)]
pub struct ReplicationUpdate {
    /// Object being replicated
    pub object_id: GorcObjectId,
    /// Object type name
    pub object_type: String,
    /// Replication channel
    pub channel: u8,
    /// Serialized object data
    pub data: Vec<u8>,
    /// Update priority
    pub priority: ReplicationPriority,
    /// Update sequence number for ordering
    pub sequence: u32,
    /// Timestamp when update was created
    pub timestamp: u64,
    /// Compression used for the data
    pub compression: CompressionType,
}

/// The abstract value of a replication update.
pub struct UpdateView {
    pub object_id: GorcObjectId,
    pub object_type: Seq<char>,
    pub channel: u8,
    pub data: Seq<u8>,
    pub priority: ReplicationPriority,
    pub sequence: u32,
    pub timestamp: u64,
    pub compression: CompressionType,
}

impl View for ReplicationUpdate {
    type V = UpdateView;

    open spec fn view(&self) -> UpdateView {
        UpdateView {
            object_id: self.object_id,
            object_type: self.object_type@,
            channel: self.channel,
            data: self.data@,
            priority: self.priority,
            sequence: self.sequence,
            timestamp: self.timestamp,
            compression: self.compression,
        }
    }
}

/// A copy of some bytes.
fn copy_bytes(v: &Vec<u8>) -> (r: Vec<u8>)
    ensures
        r@ == v@,
{
    let mut r: Vec<u8> = Vec::new();
    let mut i: usize = 0;
    while i < v.len()
        invariant
            i <= v@.len(),
            r@ == v@.take(i as int),
        decreases v@.len() - i,
    {
        r.push(v[i]);
        assert(v@.take(i as int + 1) =~= v@.take(i as int).push(v@[i as int]));
        i = i + 1;
    }
    assert(v@.take(i as int) =~= v@);
    r
}

impl Clone for ReplicationUpdate {
    fn clone(&self) -> (r: Self)
        ensures
            r@ == self@,
    {
        ReplicationUpdate {
            object_id: self.object_id,
            object_type: self.object_type.clone(),
            channel: self.channel,
            data: copy_bytes(&self.data),
            priority: self.priority,
            sequence: self.sequence,
            timestamp: self.timestamp,
            compression: self.compression,
        }
    }
}

/// Batch of replication updates for efficient transmission
#[derive(Debug, Clone)]
pub struct ReplicationBatch {
    /// Batch identifier
    pub batch_id: u32,
    /// Updates in this batch
    pub updates: Vec<ReplicationUpdate>,
    /// Target player for this batch
    pub target_player: PlayerId,
    /// Batch priority (highest priority of contained updates)
    pub priority: ReplicationPriority,
    /// Total compressed size
    pub compressed_size: usize,
    /// Creation timestamp
    pub timestamp: u64,
}

/// The default bound of a priority queue whose priority is given no size.
pub const DEFAULT_QUEUE_SIZE: usize = 100;

/// The queue bound that a list of `(priority, size)` pairs gives a
/// priority: the last size listed for it, or the default when it is not
/// listed.
pub open spec fn listed_size(sizes: Seq<(ReplicationPriority, usize)>, p: ReplicationPriority) -> usize
    decreases sizes.len(),
{
    if sizes.len() == 0 {
        DEFAULT_QUEUE_SIZE
    } else if sizes.last().0 == p {
        sizes.last().1
    } else {
        listed_size(sizes.drop_last(), p)
    }
}

/// Priority queue for replication updates: one bounded FIFO queue per
/// priority level.
#[derive(Debug)]
pub struct PriorityUpdateQueue {
    critical: VecDeque<ReplicationUpdate>,
    high: VecDeque<ReplicationUpdate>,
    normal: VecDeque<ReplicationUpdate>,
    low: VecDeque<ReplicationUpdate>,
    max_critical: usize,
    max_high: usize,
    max_normal: usize,
    max_low: usize,
    total_updates: usize,
}

/// `n - 1`, or 0 when `n` is 0.
pub open spec fn sat_dec(n: usize) -> usize {
    if n == 0 {
        0
    } else {
        (n - 1) as usize
    }
}

impl PriorityUpdateQueue {
    /// The queue of one priority level, oldest first.
    pub closed spec fn queue(&self, p: ReplicationPriority) -> Seq<ReplicationUpdate> {
        match p {
            ReplicationPriority::Critical => self.critical@,
            ReplicationPriority::High => self.high@,
            ReplicationPriority::Normal => self.normal@,
            ReplicationPriority::Low => self.low@,
        }
    }

    /// The bound of one priority level's queue.
    pub closed spec fn limit(&self, p: ReplicationPriority) -> usize {
        match p {
            ReplicationPriority::Critical => self.max_critical,
            ReplicationPriority::High => self.max_high,
            ReplicationPriority::Normal => self.max_normal,
            ReplicationPriority::Low => self.max_low,
        }
    }

    /// The update count that the queue keeps.
    pub closed spec fn total(&self) -> usize {
        self.total_updates
    }

    /// All queued updates in the order they are popped: critical first, then
    /// high, normal and low, each oldest first.
    pub open spec fn pending(&self) -> Seq<ReplicationUpdate> {
        self.queue(ReplicationPriority::Critical) + self.queue(ReplicationPriority::High) + self.queue(
            ReplicationPriority::Normal,
        ) + self.queue(ReplicationPriority::Low)
    }

    /// The kept count matches the updates queued, and every queue holds only
    /// updates of its own priority.
    pub open spec fn wf(&self) -> bool {
        &&& self.total() == self.pending().len()
        &&& forall|p: ReplicationPriority, i: int|
            0 <= i < self.queue(p).len() ==> (#[trigger] self.queue(p)[i]).priority == p
    }

    /// Creates empty queues; each priority's bound is the last size that
    /// `max_sizes` lists for it, or 100 when it is not listed.
    pub fn new(max_sizes: Vec<(ReplicationPriority, usize)>) -> (q: Self)
        ensures
            q.wf(),
            q.pending().len() == 0,
            forall|p: ReplicationPriority| #[trigger] q.queue(p).len() == 0,
            forall|p: ReplicationPriority| #[trigger] q.limit(p) == listed_size(max_sizes@, p),
    {
        let mut limits: [usize; 4] = [DEFAULT_QUEUE_SIZE, DEFAULT_QUEUE_SIZE, DEFAULT_QUEUE_SIZE, DEFAULT_QUEUE_SIZE];
        let mut i: usize = 0;
        while i < max_sizes.len()
            invariant
                i <= max_sizes@.len(),
                limits@.len() == 4,
                limits@[0] == listed_size(max_sizes@.take(i as int), ReplicationPriority::Critical),
                limits@[1] == listed_size(max_sizes@.take(i as int), ReplicationPriority::High),
                limits@[2] == listed_size(max_sizes@.take(i as int), ReplicationPriority::Normal),
                limits@[3] == listed_size(max_sizes@.take(i as int), ReplicationPriority::Low),
            decreases max_sizes@.len() - i,
        {
            let (p, size) = max_sizes[i];
            let slot: usize = p.rank() as usize;
            limits.set(slot, size);
            assert(max_sizes@.take(i as int + 1).drop_last() =~= max_sizes@.take(i as int));
            i = i + 1;
        }
        assert(max_sizes@.take(max_sizes@.len() as int) =~= max_sizes@);
        let q = PriorityUpdateQueue {
            critical: VecDeque::new(),
            high: VecDeque::new(),
            normal: VecDeque::new(),
            low: VecDeque::new(),
            max_critical: limits[0],
            max_high: limits[1],
            max_normal: limits[2],
            max_low: limits[3],
            total_updates: 0,
        };
        assert(q.pending() =~= Seq::<ReplicationUpdate>::empty());
        q
    }

    /// Adds an update to the queue of its priority. When that queue has
    /// reached its bound its oldest update is dropped first. Always succeeds.
    pub fn push(&mut self, update: ReplicationUpdate) -> (added: bool)
        requires
            old(self).total() < usize::MAX,
        ensures
            added,
            ({
                let p = update.priority;
                let q = old(self).queue(p);
                let full = q.len() >= old(self).limit(p);
                &&& final(self).queue(p) == (if full && q.len() > 0 { q.drop_first() } else { q }).push(update)
                &&& final(self).total() == (if full { sat_dec(old(self).total()) } else { old(self).total() }) + 1
                &&& forall|r: ReplicationPriority| r != p ==> #[trigger] final(self).queue(r) == old(self).queue(r)
            }),
            forall|r: ReplicationPriority| #[trigger] final(self).limit(r) == old(self).limit(r),
            old(self).wf() && (old(self).limit(update.priority) > 0 || old(self).queue(update.priority).len() > 0
                || old(self).total() == 0) ==> final(self).wf(),
            ({
                let p = update.priority;
                let n = old(self).queue(p).len();
                let m = old(self).limit(p);
                old(self).wf() && 1 <= m && n <= m ==> {
                    &&& final(self).wf()
                    &&& final(self).queue(p).last() == update
                    &&& n == m ==> final(self).queue(p).len() == m && final(self).total() == old(self).total()
                    &&& n < m ==> final(self).queue(p).len() == n + 1 && final(self).total() == old(self).total() + 1
                }
            }),
    {
        let ghost p = update.priority;
        let ghost old_pending = self.pending();
        match update.priority {
            ReplicationPriority::Critical => {
                if self.critical.len() >= self.max_critical {
                    self.critical.pop_front();
                    self.total_updates = self.total_updates.saturating_sub(1);
                }
                self.critical.push_back(update);
            },
            ReplicationPriority::High => {
                if self.high.len() >= self.max_high {
                    self.high.pop_front();
                    self.total_updates = self.total_updates.saturating_sub(1);
                }
                self.high.push_back(update);
            },
            ReplicationPriority::Normal => {
                if self.normal.len() >= self.max_normal {
                    self.normal.pop_front();
                    self.total_updates = self.total_updates.saturating_sub(1);
                }
                self.normal.push_back(update);
            },
            ReplicationPriority::Low => {
                if self.low.len() >= self.max_low {
                    self.low.pop_front();
                    self.total_updates = self.total_updates.saturating_sub(1);
                }
                self.low.push_back(update);
            },
        }
        self.total_updates = self.total_updates + 1;
        proof {
            if old(self).wf() {
                assert forall|r: ReplicationPriority, i: int|
                    0 <= i < self.queue(r).len() implies (#[trigger] self.queue(r)[i]).priority == r by {
                    if r == p {
                        let q = old(self).queue(p);
                        if q.len() >= old(self).limit(p) && q.len() > 0 {
                            if i < q.len() - 1 {
                                assert(self.queue(r)[i] == q[i + 1]);
                            }
                        } else if i < q.len() {
                            assert(self.queue(r)[i] == q[i]);
                        }
                    } else {
                        assert(self.queue(r)[i] == old(self).queue(r)[i]);
                    }
                }
            }
        }
        true
    }

    /// Removes and returns the oldest update of the most urgent non-empty
    /// queue.
    pub fn pop(&mut self) -> (r: Option<ReplicationUpdate>)
        ensures
            old(self).pending().len() == 0 ==> r is None && final(self).pending() == old(self).pending()
                && final(self).total() == old(self).total(),
            old(self).pending().len() > 0 ==> r == Some(old(self).pending()[0])
                && final(self).pending() == old(self).pending().drop_first()
                && final(self).total() == sat_dec(old(self).total()),
            forall|p: ReplicationPriority| #[trigger] final(self).limit(p) == old(self).limit(p),
            old(self).wf() ==> final(self).wf(),
    {
        let ghost c = self.critical@;
        let ghost h = self.high@;
        let ghost n = self.normal@;
        let ghost l = self.low@;
        let r = if self.critical.len() > 0 {
            self.critical.pop_front()
        } else if self.high.len() > 0 {
            self.high.pop_front()
        } else if self.normal.len() > 0 {
            self.normal.pop_front()
        } else if self.low.len() > 0 {
            self.low.pop_front()
        } else {
            None
        };
        if r.is_some() {
            self.total_updates = self.total_updates.saturating_sub(1);
        }
        proof {
            if c.len() > 0 {
                assert(self.pending() =~= old(self).pending().drop_first());
            } else if h.len() > 0 {
                assert(old(self).pending() =~= h + n + l);
                assert(self.pending() =~= old(self).pending().drop_first());
            } else if n.len() > 0 {
                assert(old(self).pending() =~= n + l);
                assert(self.pending() =~= old(self).pending().drop_first());
            } else if l.len() > 0 {
                assert(old(self).pending() =~= l);
                assert(self.pending() =~= old(self).pending().drop_first());
            } else {
                assert(old(self).pending() =~= Seq::<ReplicationUpdate>::empty());
            }
            if old(self).wf() {
                assert forall|q: ReplicationPriority, i: int|
                    0 <= i < self.queue(q).len() implies (#[trigger] self.queue(q)[i]).priority == q by {
                    if self.queue(q).len() < old(self).queue(q).len() {
                        assert(self.queue(q)[i] == old(self).queue(q)[i + 1]);
                    } else {
                        assert(self.queue(q)[i] == old(self).queue(q)[i]);
                    }
                }
            }
        }
        r
    }

    /// The oldest update of the most urgent non-empty queue, left in place.
    pub fn peek(&self) -> (r: Option<&ReplicationUpdate>)
        ensures
            self.pending().len() == 0 ==> r is None,
            self.pending().len() > 0 ==> r == Some(&self.pending()[0]),
    {
        if self.critical.len() > 0 {
            Some(&self.critical[0])
        } else if self.high.len() > 0 {
            assert(self.pending() =~= self.high@ + self.normal@ + self.low@);
            Some(&self.high[0])
        } else if self.normal.len() > 0 {
            assert(self.pending() =~= self.normal@ + self.low@);
            Some(&self.normal[0])
        } else if self.low.len() > 0 {
            assert(self.pending() =~= self.low@);
            Some(&self.low[0])
        } else {
            assert(self.pending() =~= Seq::<ReplicationUpdate>::empty());
            None
        }
    }

    /// The number of updates the queue counts.
    pub fn len(&self) -> (n: usize)
        ensures
            n == self.total(),
            self.wf() ==> n == self.pending().len(),
    {
        self.total_updates
    }

    /// Whether the queue counts no updates.
    pub fn is_empty(&self) -> (r: bool)
        ensures
            r == (self.total() == 0),
            self.wf() ==> r == (self.pending().len() == 0),
    {
        self.total_updates == 0
    }

    /// Empties every queue.
    pub fn clear(&mut self)
        ensures
            final(self).pending().len() == 0,
            forall|p: ReplicationPriority| #[trigger] final(self).queue(p).len() == 0,
            final(self).total() == 0,
            final(self).wf(),
            forall|p: ReplicationPriority| #[trigger] final(self).limit(p) == old(self).limit(p),
    {
        self.critical.clear();
        self.high.clear();
        self.normal.clear();
        self.low.clear();
        self.total_updates = 0;
        assert(self.pending() =~= Seq::<ReplicationUpdate>::empty());
    }

    /// The number of updates in one priority queue.
    pub fn priority_len(&self, priority: ReplicationPriority) -> (n: usize)
        ensures
            n == self.queue(priority).len(),
    {
        match priority {
            ReplicationPriority::Critical => self.critical.len(),
            ReplicationPriority::High => self.high.len(),
            ReplicationPriority::Normal => self.normal.len(),
            ReplicationPriority::Low => self.low.len(),
        }
    }

    /// Removes up to `count` updates, the most urgent first.
    pub fn drain(&mut self, count: usize) -> (updates: Vec<ReplicationUpdate>)
        ensures
            ({
                let k = if count < old(self).pending().len() { count as int } else { old(self).pending().len() as int };
                &&& updates@ == old(self).pending().take(k)
                &&& final(self).pending() == old(self).pending().skip(k)
            }),
            forall|p: ReplicationPriority| #[trigger] final(self).limit(p) == old(self).limit(p),
            old(self).wf() ==> final(self).wf() && final(self).total() == final(self).pending().len(),
    {
        let mut updates: Vec<ReplicationUpdate> = Vec::new();
        let mut taken: usize = 0;
        while taken < count
            invariant
                taken <= count,
                taken == updates@.len(),
                taken <= old(self).pending().len(),
                updates@ == old(self).pending().take(taken as int),
                self.pending() == old(self).pending().skip(taken as int),
                forall|p: ReplicationPriority| #[trigger] self.limit(p) == old(self).limit(p),
                old(self).wf() ==> self.wf(),
            ensures
                ({
                    let k = if count < old(self).pending().len() { count as int } else { old(self).pending().len() as int };
                    &&& updates@ == old(self).pending().take(k)
                    &&& self.pending() == old(self).pending().skip(k)
                }),
                forall|p: ReplicationPriority| #[trigger] self.limit(p) == old(self).limit(p),
                old(self).wf() ==> self.wf(),
            decreases count - taken,
        {
            match self.pop() {
                Some(update) => {
                    proof {
                        assert(old(self).pending().skip(taken as int)[0] == old(self).pending()[taken as int]);
                        assert(old(self).pending().skip(taken as int).drop_first() =~= old(self).pending().skip(taken as int + 1));
                        assert(old(self).pending().take(taken as int).push(update) =~= old(self).pending().take(taken as int + 1));
                    }
                    updates.push(update);
                    taken = taken + 1;
                },
                None => {
                    break;
                },
            }
        }
        updates
    }
}


/// The priority of the update at position `i` of a consistent queue's
/// pending updates, by the segment it falls in.
proof fn lemma_pending_priority(q: PriorityUpdateQueue, i: int)
    requires
        q.wf(),
        0 <= i < q.pending().len(),
    ensures
        priority_rank_spec(q.pending()[i].priority) == (if i < q.queue(ReplicationPriority::Critical).len() {
            0int
        } else if i < q.queue(ReplicationPriority::Critical).len() + q.queue(ReplicationPriority::High).len() {
            1int
        } else if i < q.queue(ReplicationPriority::Critical).len() + q.queue(ReplicationPriority::High).len()
            + q.queue(ReplicationPriority::Normal).len() {
            2int
        } else {
            3int
        }),
{
    let c = q.queue(ReplicationPriority::Critical);
    let h = q.queue(ReplicationPriority::High);
    let n = q.queue(ReplicationPriority::Normal);
    let l = q.queue(ReplicationPriority::Low);
    let cl = c.len() as int;
    let hl = h.len() as int;
    let nl = n.len() as int;
    if i < cl {
        assert(q.pending()[i] == c[i]);
        assert(c[i].priority == ReplicationPriority::Critical);
    } else if i < cl + hl {
        assert(q.pending()[i] == h[i - cl]);
        assert(h[i - cl].priority == ReplicationPriority::High);
    } else if i < cl + hl + nl {
        assert(q.pending()[i] == n[i - cl - hl]);
        assert(n[i - cl - hl].priority == ReplicationPriority::Normal);
    } else {
        assert(q.pending()[i] == l[i - cl - hl - nl]);
        assert(l[i - cl - hl - nl].priority == ReplicationPriority::Low);
    }
}

/// Updates leave a consistent queue most urgent first: the update popped
/// next is at least as urgent as every update still queued, and updates
/// come out in an order of non-decreasing urgency rank.
pub proof fn law_pop_most_urgent(q: PriorityUpdateQueue, i: int, j: int)
    requires
        q.wf(),
        0 <= i <= j < q.pending().len(),
    ensures
        priority_rank_spec(q.pending()[0].priority) <= priority_rank_spec(q.pending()[j].priority),
        priority_rank_spec(q.pending()[i].priority) <= priority_rank_spec(q.pending()[j].priority),
{
    lemma_pending_priority(q, 0);
    lemma_pending_priority(q, i);
    lemma_pending_priority(q, j);
}

/// Configuration for the network replication engine. Target frequencies
/// are `f32` values held by their bit patterns.
#[derive(Debug, Clone)]
pub struct NetworkConfig {
    /// Maximum bandwidth per player (bytes per second)
    pub max_bandwidth_per_player: u32,
    /// Maximum batch size in updates
    pub max_batch_size: usize,
    /// Maximum batch age before forced transmission
    pub max_batch_age_ms: u64,
    /// Target update frequency per channel (bit patterns), later entries
    /// overriding earlier ones
    pub target_frequencies: Vec<(u8, u32)>,
    /// Enable compression
    pub compression_enabled: bool,
    /// Minimum compression threshold (don't compress smaller payloads)
    pub compression_threshold: usize,
    /// Priority queue sizes, later entries overriding earlier ones
    pub priority_queue_sizes: Vec<(ReplicationPriority, usize)>,
}

impl Default for NetworkConfig {
    /// 1 MiB/s per player, batches of up to 50 updates sent at least every
    /// 16 ms, target frequencies of 60, 30, 15 and 5 Hz for channels 0 to
    /// 3, compression above 64 bytes, and queues of 1000 critical, 500
    /// high, 250 normal and 100 low priority updates.
    fn default() -> (c: Self)
        ensures
            c.max_bandwidth_per_player == 1024 * 1024,
            c.max_batch_size == 50,
            c.max_batch_age_ms == 16,
            c.target_frequencies@ == seq![(0u8, F32_SIXTY_BITS), (1u8, F32_THIRTY_BITS), (2u8, F32_FIFTEEN_BITS), (3u8, F32_FIVE_BITS)],
            c.compression_enabled,
            c.compression_threshold == 64,
            c.priority_queue_sizes@ == seq![
                (ReplicationPriority::Critical, 1000usize),
                (ReplicationPriority::High, 500usize),
                (ReplicationPriority::Normal, 250usize),
                (ReplicationPriority::Low, 100usize),
            ],
    {
        let mut target_frequencies: Vec<(u8, u32)> = Vec::new();
        target_frequencies.push((0, F32_SIXTY_BITS));
        target_frequencies.push((1, F32_THIRTY_BITS));
        target_frequencies.push((2, F32_FIFTEEN_BITS));
        target_frequencies.push((3, F32_FIVE_BITS));
        let mut priority_queue_sizes: Vec<(ReplicationPriority, usize)> = Vec::new();
        priority_queue_sizes.push((ReplicationPriority::Critical, 1000));
        priority_queue_sizes.push((ReplicationPriority::High, 500));
        priority_queue_sizes.push((ReplicationPriority::Normal, 250));
        priority_queue_sizes.push((ReplicationPriority::Low, 100));
        let c = NetworkConfig {
            max_bandwidth_per_player: 1024 * 1024,
            max_batch_size: 50,
            max_batch_age_ms: 16,
            target_frequencies,
            compression_enabled: true,
            compression_threshold: 64,
            priority_queue_sizes,
        };
        assert(c.target_frequencies@ =~= seq![(0u8, F32_SIXTY_BITS), (1u8, F32_THIRTY_BITS), (2u8, F32_FIFTEEN_BITS), (3u8, F32_FIVE_BITS)]);
        assert(c.priority_queue_sizes@ =~= seq![
            (ReplicationPriority::Critical, 1000usize),
            (ReplicationPriority::High, 500usize),
            (ReplicationPriority::Normal, 250usize),
            (ReplicationPriority::Low, 100usize),
        ]);
        c
    }
}

/// Network statistics. The three averages are `f32` values held by their
/// bit patterns; the library only carries them.
#[derive(Debug, Clone, Copy, PartialEq, Eq, Structural)]
pub struct NetworkStats {
    /// Total updates sent
    pub updates_sent: u64,
    /// Total batches sent
    pub batches_sent: u64,
    /// Total bytes transmitted
    pub bytes_transmitted: u64,
    /// Updates dropped due to bandwidth limits
    pub updates_dropped: u64,
    /// Bit pattern of the average batch size
    pub avg_batch_size_bits: u32,
    /// Bit pattern of the average compression ratio
    pub avg_compression_ratio_bits: u32,
    /// Bit pattern of the network utilization percentage
    pub network_utilization_bits: u32,
}

impl NetworkStats {
    /// Statistics with every counter at zero.
    pub open spec fn zero() -> NetworkStats {
        NetworkStats {
            updates_sent: 0,
            batches_sent: 0,
            bytes_transmitted: 0,
            updates_dropped: 0,
            avg_batch_size_bits: 0,
            avg_compression_ratio_bits: 0,
            network_utilization_bits: 0,
        }
    }
}

impl Default for NetworkStats {
    /// Statistics with every counter at zero.
    fn default() -> (s: Self)
        ensures
            s == NetworkStats::zero(),
    {
        NetworkStats {
            updates_sent: 0,
            batches_sent: 0,
            bytes_transmitted: 0,
            updates_dropped: 0,
            avg_batch_size_bits: 0,
            avg_compression_ratio_bits: 0,
            network_utilization_bits: 0,
        }
    }
}

impl NetworkStats {
    /// Counts a batch of `updates` updates sent as `bytes` bytes.
    pub fn record_batch(&mut self, updates: usize, bytes: usize)
        requires
            old(self).batches_sent < u64::MAX,
            old(self).updates_sent + updates <= u64::MAX,
            old(self).bytes_transmitted + bytes <= u64::MAX,
        ensures
            final(self).batches_sent == old(self).batches_sent + 1,
            final(self).updates_sent == old(self).updates_sent + updates,
            final(self).bytes_transmitted == old(self).bytes_transmitted + bytes,
            final(self).updates_dropped == old(self).updates_dropped,
            final(self).avg_batch_size_bits == old(self).avg_batch_size_bits,
            final(self).avg_compression_ratio_bits == old(self).avg_compression_ratio_bits,
            final(self).network_utilization_bits == old(self).network_utilization_bits,
    {
        self.batches_sent = self.batches_sent + 1;
        self.updates_sent = self.updates_sent + updates as u64;
        self.bytes_transmitted = self.bytes_transmitted + bytes as u64;
    }
}

/// The size assumed for one update when checking a player's bandwidth.
pub const ESTIMATED_UPDATE_SIZE: u32 = 256;

/// The updates of an optional batch.
pub open spec fn batch_contents(b: Option<ReplicationBatch>) -> Seq<ReplicationUpdate> {
    match b {
        Some(batch) => batch.updates@,
        None => Seq::empty(),
    }
}

/// The updates of a list of batches, batch after batch.
pub open spec fn flatten_batches(bs: Seq<ReplicationBatch>) -> Seq<ReplicationUpdate>
    decreases bs.len(),
{
    if bs.len() == 0 {
        Seq::empty()
    } else {
        flatten_batches(bs.drop_last()) + bs.last().updates@
    }
}

proof fn lemma_flatten_push(bs: Seq<ReplicationBatch>, b: ReplicationBatch)
    ensures
        flatten_batches(bs.push(b)) == flatten_batches(bs) + b.updates@,
{
    assert(bs.push(b).drop_last() =~= bs);
}

/// One second, in nanoseconds: how long a bandwidth record is kept.
pub const BANDWIDTH_WINDOW_NS: u128 = 1_000_000_000;

/// `ages_ns` holds, for each bandwidth record, the time the clock measured
/// from the record to `now`.
pub open spec fn record_ages(now: tokio::time::Instant, h: Seq<(tokio::time::Instant, u32)>, ages_ns: Seq<u128>) -> bool {
    &&& ages_ns.len() == h.len()
    &&& forall|m: int| 0 <= m < h.len() ==> measured_gap(now, h[m].0, #[trigger] ages_ns[m])
}

/// `k` is the position of the first record at most one second old, given
/// the age of each record in nanoseconds (the length when there is none):
/// all records before it are older than a second.
pub open spec fn first_recent(ages_ns: Seq<u128>, k: int) -> bool {
    &&& 0 <= k <= ages_ns.len()
    &&& forall|m: int| 0 <= m < k ==> #[trigger] ages_ns[m] > BANDWIDTH_WINDOW_NS
    &&& k < ages_ns.len() ==> ages_ns[k] <= BANDWIDTH_WINDOW_NS
}

/// The bytes recorded in a bandwidth history.
pub open spec fn history_bytes(h: Seq<(tokio::time::Instant, u32)>) -> int
    decreases h.len(),
{
    if h.len() == 0 {
        0
    } else {
        history_bytes(h.drop_last()) + h.last().1
    }
}

proof fn lemma_history_bytes_push(h: Seq<(tokio::time::Instant, u32)>, e: (tokio::time::Instant, u32))
    ensures
        history_bytes(h.push(e)) == history_bytes(h) + e.1,
{
    assert(h.push(e).drop_last() =~= h);
}

proof fn lemma_history_bytes_prefix(h: Seq<(tokio::time::Instant, u32)>, n: int)
    requires
        0 <= n <= h.len(),
    ensures
        0 <= history_bytes(h.take(n)) <= history_bytes(h),
    decreases h.len(),
{
    if n < h.len() {
        assert(h.drop_last().take(n) =~= h.take(n));
        lemma_history_bytes_prefix(h.drop_last(), n);
    } else {
        assert(h.take(n) =~= h);
        lemma_history_bytes_nonneg(h);
    }
}

proof fn lemma_history_bytes_nonneg(h: Seq<(tokio::time::Instant, u32)>)
    ensures
        history_bytes(h) >= 0,
    decreases h.len(),
{
    if h.len() > 0 {
        lemma_history_bytes_nonneg(h.drop_last());
    }
}

proof fn lemma_history_bytes_suffix(h: Seq<(tokio::time::Instant, u32)>, k: int)
    requires
        0 <= k <= h.len(),
    ensures
        0 <= history_bytes(h.skip(k)) <= history_bytes(h),
    decreases h.len(),
{
    lemma_history_bytes_nonneg(h.skip(k));
    if k < h.len() {
        lemma_history_bytes_suffix(h.drop_last(), k);
        assert(h.skip(k).drop_last() =~= h.drop_last().skip(k));
    } else {
        assert(h.skip(k) =~= Seq::<(tokio::time::Instant, u32)>::empty());
        lemma_history_bytes_nonneg(h);
    }
}

/// Per-player network state
#[derive(Debug)]
pub struct PlayerNetworkState {
    /// Player identifier
    pub player_id: PlayerId,
    /// Update queue for this player
    pub update_queue: PriorityUpdateQueue,
    /// Current bandwidth usage (bytes per second)
    pub bandwidth_usage: u32,
    /// Bandwidth usage history for smoothing: when each transmission was
    /// recorded and its size
    pub bandwidth_history: VecDeque<(tokio::time::Instant, u32)>,
    /// Sequence number for ordering
    pub sequence_counter: u32,
    /// Batch identifier counter
    pub batch_counter: u32,
    /// Network counters for this player
    pub stats: NetworkStats,
    /// Current batch being assembled
    pub current_batch: Option<ReplicationBatch>,
}

impl PlayerNetworkState {
    /// Creates new network state for a player
    pub fn new(player_id: PlayerId, config: &NetworkConfig) -> (s: Self)
        ensures
            s.player_id == player_id,
            s.update_queue.wf(),
            s.update_queue.pending().len() == 0,
            forall|p: ReplicationPriority| #[trigger] s.update_queue.limit(p) == listed_size(config.priority_queue_sizes@, p),
            s.bandwidth_usage == 0,
            s.bandwidth_history@.len() == 0,
            s.sequence_counter == 0,
            s.batch_counter == 0,
            s.current_batch is None,
            s.stats == NetworkStats::zero(),
    {
        let mut sizes: Vec<(ReplicationPriority, usize)> = Vec::new();
        let mut i: usize = 0;
        while i < config.priority_queue_sizes.len()
            invariant
                i <= config.priority_queue_sizes@.len(),
                sizes@ == config.priority_queue_sizes@.take(i as int),
            decreases config.priority_queue_sizes@.len() - i,
        {
            sizes.push(config.priority_queue_sizes[i]);
            assert(config.priority_queue_sizes@.take(i as int + 1) =~= config.priority_queue_sizes@.take(i as int).push(config.priority_queue_sizes@[i as int]));
            i = i + 1;
        }
        assert(config.priority_queue_sizes@.take(i as int) =~= config.priority_queue_sizes@);
        PlayerNetworkState {
            player_id,
            update_queue: PriorityUpdateQueue::new(sizes),
            bandwidth_usage: 0,
            bandwidth_history: VecDeque::new(),
            sequence_counter: 0,
            batch_counter: 0,
            stats: NetworkStats::default(),
            current_batch: None,
        }
    }

    /// Adds an update to this player's queue
    pub fn queue_update(&mut self, update: ReplicationUpdate) -> (added: bool)
        requires
            old(self).update_queue.total() < usize::MAX,
        ensures
            added,
            final(self).update_queue.queue(update.priority) == ({
                let q = old(self).update_queue.queue(update.priority);
                if q.len() >= old(self).update_queue.limit(update.priority) && q.len() > 0 {
                    q.drop_first()
                } else {
                    q
                }
            }).push(update),
            forall|r: ReplicationPriority| r != update.priority ==> #[trigger] final(self).update_queue.queue(r)
                == old(self).update_queue.queue(r),
            final(self).current_batch == old(self).current_batch,
            final(self).batch_counter == old(self).batch_counter,
            final(self).bandwidth_usage == old(self).bandwidth_usage,
    {
        self.update_queue.push(update)
    }

    /// Gets the next sequence number
    pub fn next_sequence(&mut self) -> (n: u32)
        requires
            old(self).sequence_counter < u32::MAX,
        ensures
            n == old(self).sequence_counter + 1,
            final(self).sequence_counter == n,
            final(self).batch_counter == old(self).batch_counter,
            final(self).current_batch == old(self).current_batch,
    {
        self.sequence_counter = self.sequence_counter + 1;
        self.sequence_counter
    }

    /// Gets the next batch ID
    pub fn next_batch_id(&mut self) -> (n: u32)
        requires
            old(self).batch_counter < u32::MAX,
        ensures
            n == old(self).batch_counter + 1,
            final(self).batch_counter == n,
            final(self).sequence_counter == old(self).sequence_counter,
            final(self).current_batch == old(self).current_batch,
            final(self).update_queue == old(self).update_queue,
            final(self).player_id == old(self).player_id,
            final(self).bandwidth_usage == old(self).bandwidth_usage,
    {
        self.batch_counter = self.batch_counter + 1;
        self.batch_counter
    }

    /// Forgets the bandwidth records older than one second, given the age
    /// of each record in nanoseconds: the records before the first one at
    /// most a second old leave, that one and all after it stay. The
    /// bandwidth usage becomes the bytes of the records kept.
    pub fn expire_bandwidth_history(&mut self, ages_ns: &Vec<u128>)
        requires
            ages_ns@.len() == old(self).bandwidth_history@.len(),
            history_bytes(old(self).bandwidth_history@) <= u32::MAX,
        ensures
            exists|k: int| {
                &&& first_recent(ages_ns@, k)
                &&& final(self).bandwidth_history@ == old(self).bandwidth_history@.skip(k)
            },
            final(self).bandwidth_usage == history_bytes(final(self).bandwidth_history@),
            final(self).player_id == old(self).player_id,
            final(self).update_queue == old(self).update_queue,
            final(self).current_batch == old(self).current_batch,
            final(self).batch_counter == old(self).batch_counter,
            final(self).sequence_counter == old(self).sequence_counter,
            final(self).stats == old(self).stats,
    {
        let ghost h0 = self.bandwidth_history@;
        let mut k: usize = 0;
        while k < ages_ns.len() && ages_ns[k] > BANDWIDTH_WINDOW_NS
            invariant
                k <= ages_ns@.len(),
                ages_ns@.len() == h0.len(),
                self.bandwidth_history@ == h0.skip(k as int),
                forall|m: int| 0 <= m < k ==> #[trigger] ages_ns@[m] > BANDWIDTH_WINDOW_NS,
                self.player_id == old(self).player_id,
                self.update_queue == old(self).update_queue,
                self.current_batch == old(self).current_batch,
                self.batch_counter == old(self).batch_counter,
                self.sequence_counter == old(self).sequence_counter,
                self.stats == old(self).stats,
            decreases ages_ns@.len() - k,
        {
            self.bandwidth_history.pop_front();
            assert(self.bandwidth_history@ =~= h0.skip(k as int + 1));
            k = k + 1;
        }
        assert(first_recent(ages_ns@, k as int));
        proof {
            lemma_history_bytes_suffix(h0, k as int);
        }
        let mut total: u32 = 0;
        let mut i: usize = 0;
        while i < self.bandwidth_history.len()
            invariant
                i <= self.bandwidth_history@.len(),
                total == history_bytes(self.bandwidth_history@.take(i as int)),
                history_bytes(self.bandwidth_history@) <= u32::MAX,
            decreases self.bandwidth_history@.len() - i,
        {
            proof {
                lemma_history_bytes_prefix(self.bandwidth_history@, i as int + 1);
                assert(self.bandwidth_history@.take(i as int + 1).drop_last() =~= self.bandwidth_history@.take(i as int));
            }
            total = total + self.bandwidth_history[i].1;
            i = i + 1;
        }
        assert(self.bandwidth_history@.take(i as int) =~= self.bandwidth_history@);
        self.bandwidth_usage = total;
    }

    /// Records a transmission of `bytes_sent` bytes now, then forgets the
    /// records more than one second old as
    /// [`PlayerNetworkState::expire_bandwidth_history`] does for their ages
    /// as the clock reads them. The new record has age zero, so it is always
    /// kept.
    pub fn update_bandwidth_usage(&mut self, bytes_sent: u32)
        requires
            history_bytes(old(self).bandwidth_history@) + bytes_sent <= u32::MAX,
        ensures
            final(self).bandwidth_history@.len() >= 1,
            final(self).bandwidth_history@.last().1 == bytes_sent,
            exists|ages_ns: Seq<u128>, k: int| {
                &&& ages_ns.len() == old(self).bandwidth_history@.len()
                &&& first_recent(ages_ns.push(0), k)
                &&& final(self).bandwidth_history@.drop_last() == old(self).bandwidth_history@.skip(k)
            },
            exists|now: tokio::time::Instant, ages_ns: Seq<u128>, k: int| {
                &&& #[trigger] record_ages(now, old(self).bandwidth_history@, ages_ns)
                &&& #[trigger] first_recent(ages_ns.push(0), k)
                &&& final(self).bandwidth_history@ == old(self).bandwidth_history@.skip(k).push((now, bytes_sent))
            },
            final(self).bandwidth_usage == history_bytes(final(self).bandwidth_history@),
            final(self).player_id == old(self).player_id,
            final(self).update_queue == old(self).update_queue,
            final(self).current_batch == old(self).current_batch,
            final(self).batch_counter == old(self).batch_counter,
            final(self).sequence_counter == old(self).sequence_counter,
            final(self).stats == old(self).stats,
    {
        let now = instant_now();
        let ghost h0 = self.bandwidth_history@;
        self.bandwidth_history.push_back((now, bytes_sent));
        let ghost full = h0.push((now, bytes_sent));
        proof {
            lemma_history_bytes_push(h0, (now, bytes_sent));
        }
        let mut ages_ns: Vec<u128> = Vec::new();
        let mut i: usize = 0;
        while i < self.bandwidth_history.len()
            invariant
                i <= self.bandwidth_history@.len(),
                self.bandwidth_history@ == full,
                full == h0.push((now, bytes_sent)),
                ages_ns@.len() == i,
                forall|m: int| 0 <= m < i && m == h0.len() ==> #[trigger] ages_ns@[m] == 0,
                forall|m: int| 0 <= m < i ==> measured_gap(now, full[m].0, #[trigger] ages_ns@[m]),
            decreases self.bandwidth_history@.len() - i,
        {
            let ts = self.bandwidth_history[i].0.clone();
            let age = measure_gap(&now, &ts);
            proof {
                if i == h0.len() {
                    assert(self.bandwidth_history@[i as int] == full[h0.len() as int]);
                    law_no_gap_to_itself(now, age);
                }
            }
            ages_ns.push(age);
            i = i + 1;
        }
        assert(ages_ns@ =~= ages_ns@.take(h0.len() as int).push(0));
        self.expire_bandwidth_history(&ages_ns);
        proof {
            let k = choose|k: int| first_recent(ages_ns@, k) && self.bandwidth_history@ == full.skip(k);
            assert(ages_ns@[h0.len() as int] <= BANDWIDTH_WINDOW_NS);
            assert(k <= h0.len());
            assert(self.bandwidth_history@.drop_last() =~= h0.skip(k));
            assert(self.bandwidth_history@.last() == full.last());
            assert(first_recent(ages_ns@.take(h0.len() as int).push(0), k));
            assert(record_ages(now, h0, ages_ns@.take(h0.len() as int)));
            assert(self.bandwidth_history@ =~= h0.skip(k).push((now, bytes_sent)));
        }
    }

    /// Checks if player has bandwidth available
    pub fn has_bandwidth_available(&self, bytes: u32, max_bandwidth: u32) -> (r: bool)
        requires
            self.bandwidth_usage + bytes <= u32::MAX,
        ensures
            r == (self.bandwidth_usage + bytes <= max_bandwidth),
    {
        self.bandwidth_usage + bytes <= max_bandwidth
    }

    /// Starts a new batch, addressed to this player with the lowest
    /// priority and no updates, if none is being assembled.
    pub fn start_batch_if_needed(&mut self)
        requires
            old(self).current_batch is None ==> old(self).batch_counter < u32::MAX,
        ensures
            old(self).current_batch is Some ==> *final(self) == *old(self),
            old(self).current_batch is None ==> {
                &&& final(self).current_batch matches Some(b)
                &&& b.batch_id == old(self).batch_counter + 1
                &&& b.updates@.len() == 0
                &&& b.target_player == old(self).player_id
                &&& b.priority == ReplicationPriority::Low
                &&& b.compressed_size == 0
                &&& final(self).batch_counter == old(self).batch_counter + 1
                &&& final(self).update_queue == old(self).update_queue
                &&& final(self).player_id == old(self).player_id
                &&& final(self).bandwidth_usage == old(self).bandwidth_usage
            },
    {
        if self.current_batch.is_none() {
            let batch_id = self.next_batch_id();
            self.current_batch = Some(ReplicationBatch {
                batch_id,
                updates: Vec::new(),
                target_player: self.player_id,
                priority: ReplicationPriority::Low,
                compressed_size: 0,
                timestamp: current_timestamp(),
            });
        }
    }

    /// Adds an update to the current batch, raising the batch priority to
    /// the update's when the update is more urgent. Fails when no batch is
    /// being assembled.
    pub fn add_to_batch(&mut self, update: ReplicationUpdate) -> (added: bool)
        ensures
            added == old(self).current_batch is Some,
            final(self).update_queue == old(self).update_queue,
            final(self).batch_counter == old(self).batch_counter,
            final(self).player_id == old(self).player_id,
            final(self).bandwidth_usage == old(self).bandwidth_usage,
            old(self).current_batch is None ==> final(self).current_batch is None,
            old(self).current_batch matches Some(b) ==> final(self).current_batch matches Some(nb) && {
                &&& nb.updates@ == b.updates@.push(update)
                &&& nb.priority == if priority_rank_spec(update.priority) < priority_rank_spec(b.priority) {
                    update.priority
                } else {
                    b.priority
                }
                &&& nb.batch_id == b.batch_id
                &&& nb.target_player == b.target_player
                &&& nb.timestamp == b.timestamp
                &&& nb.compressed_size == b.compressed_size
            },
    {
        match self.current_batch.take() {
            Some(mut batch) => {
                if update.priority.is_more_urgent_than(&batch.priority) {
                    batch.priority = update.priority;
                }
                batch.updates.push(update);
                self.current_batch = Some(batch);
                true
            },
            None => false,
        }
    }

    /// Finalizes and returns the current batch
    pub fn finalize_batch(&mut self) -> (b: Option<ReplicationBatch>)
        ensures
            b == old(self).current_batch,
            final(self).current_batch is None,
            final(self).update_queue == old(self).update_queue,
            final(self).batch_counter == old(self).batch_counter,
            final(self).player_id == old(self).player_id,
            final(self).bandwidth_usage == old(self).bandwidth_usage,
    {
        self.current_batch.take()
    }

    /// Whether the current batch is due at time `now` (seconds): it is full,
    /// at least `max_batch_age_ms` old, or critical.
    pub fn should_send_batch_at(&self, config: &NetworkConfig, now: u64) -> (r: bool)
        requires
            self.current_batch matches Some(b) ==> b.timestamp <= now && (now - b.timestamp) * 1000 <= u64::MAX,
        ensures
            r == match self.current_batch {
                Some(b) => b.updates@.len() >= config.max_batch_size
                    || (now - b.timestamp) * 1000 >= config.max_batch_age_ms
                    || b.priority == ReplicationPriority::Critical,
                None => false,
            },
    {
        match &self.current_batch {
            Some(batch) => {
                if batch.updates.len() >= config.max_batch_size {
                    return true;
                }
                let age_ms = (now - batch.timestamp) * 1000;
                if age_ms >= config.max_batch_age_ms {
                    return true;
                }
                batch.priority == ReplicationPriority::Critical
            },
            None => false,
        }
    }

    /// Checks if the current batch should be sent based on size, age or
    /// priority, reading the clock for its age. A clock that reads earlier
    /// than the batch's creation, or an age too large to express in
    /// milliseconds, counts as due by age.
    pub fn should_send_batch(&self, config: &NetworkConfig) -> (r: bool)
        ensures
            self.current_batch is None ==> !r,
            self.current_batch matches Some(b) ==> (b.updates@.len() >= config.max_batch_size
                || b.priority == ReplicationPriority::Critical) ==> r,
    {
        match &self.current_batch {
            Some(batch) => {
                let now = current_timestamp();
                if now < batch.timestamp || now - batch.timestamp > u64::MAX / 1000 {
                    true
                } else {
                    self.should_send_batch_at(config, now)
                }
            },
            None => false,
        }
    }
}


impl PriorityUpdateQueue {
    /// Empties the low priority queue and returns how many updates it held.
    pub fn clear_low(&mut self) -> (dropped: usize)
        requires
            old(self).wf(),
        ensures
            dropped == old(self).queue(ReplicationPriority::Low).len(),
            final(self).queue(ReplicationPriority::Low).len() == 0,
            forall|r: ReplicationPriority| r != ReplicationPriority::Low ==> #[trigger] final(self).queue(r)
                == old(self).queue(r),
            forall|r: ReplicationPriority| #[trigger] final(self).limit(r) == old(self).limit(r),
            final(self).wf(),
    {
        let dropped = self.low.len();
        self.low.clear();
        self.total_updates = self.total_updates - dropped;
        proof {
            assert(self.pending() =~= old(self).queue(ReplicationPriority::Critical) + old(self).queue(
                ReplicationPriority::High,
            ) + old(self).queue(ReplicationPriority::Normal));
            assert forall|q: ReplicationPriority, i: int|
                0 <= i < self.queue(q).len() implies (#[trigger] self.queue(q)[i]).priority == q by {
                assert(self.queue(q)[i] == old(self).queue(q)[i]);
            }
        }
        dropped
    }
}

/// Drops the low priority updates from a player's queue and returns how
/// many were dropped.
pub fn drop_low_priority_updates(state: &mut PlayerNetworkState) -> (dropped: u64)
    requires
        old(state).update_queue.wf(),
    ensures
        dropped == old(state).update_queue.queue(ReplicationPriority::Low).len(),
        final(state).update_queue.queue(ReplicationPriority::Low).len() == 0,
        forall|r: ReplicationPriority| r != ReplicationPriority::Low ==> #[trigger] final(state).update_queue.queue(r)
            == old(state).update_queue.queue(r),
        final(state).update_queue.wf(),
        final(state).current_batch == old(state).current_batch,
        final(state).bandwidth_usage == old(state).bandwidth_usage,
{
    let dropped = state.update_queue.clear_low();
    dropped as u64
}

/// How one round of batching changes a player's state, with the batches it
/// hands out: when the player has bandwidth for one more update, all queued
/// updates move, in priority order, behind those of the batch being
/// assembled, and the batches handed out followed by the batch still being
/// assembled hold exactly those updates; otherwise the queue stays as it is.
pub open spec fn player_step(
    before: PlayerNetworkState,
    after: PlayerNetworkState,
    batches: Seq<ReplicationBatch>,
    max_bandwidth_per_player: u32,
) -> bool {
    let n = before.update_queue.pending().len();
    let moved = if n > 0 && before.bandwidth_usage + ESTIMATED_UPDATE_SIZE <= max_bandwidth_per_player {
        n as int
    } else {
        0
    };
    &&& after.update_queue.pending() == before.update_queue.pending().skip(moved)
    &&& flatten_batches(batches) + batch_contents(after.current_batch) == batch_contents(before.current_batch)
        + before.update_queue.pending().take(moved)
    &&& after.update_queue.wf()
    &&& after.player_id == before.player_id
    &&& after.bandwidth_usage == before.bandwidth_usage
}

/// The updates of two lists of batches, one after the other.
proof fn lemma_flatten_append(a: Seq<ReplicationBatch>, b: Seq<ReplicationBatch>)
    ensures
        flatten_batches(a + b) == flatten_batches(a) + flatten_batches(b),
    decreases b.len(),
{
    if b.len() == 0 {
        assert(a + b =~= a);
        assert(flatten_batches(b) =~= Seq::<ReplicationUpdate>::empty());
        assert(flatten_batches(a) + flatten_batches(b) =~= flatten_batches(a));
    } else {
        lemma_flatten_append(a, b.drop_last());
        assert((a + b).drop_last() =~= a + b.drop_last());
        assert((a + b).last() == b.last());
        assert(flatten_batches(a) + flatten_batches(b.drop_last()) + b.last().updates@ =~= flatten_batches(a) + (
        flatten_batches(b.drop_last()) + b.last().updates@));
    }
}

/// No update is lost or repeated by batching: when a player with bandwidth
/// for one more update has updates queued, the batches handed out for it,
/// followed by the batch it is left assembling (which a flush hands out),
/// hold the batch it was assembling followed by all its queued updates in
/// priority order, and its queue is left empty.
pub proof fn law_batching_hands_out_every_update(
    before: PlayerNetworkState,
    after: PlayerNetworkState,
    batches: Seq<ReplicationBatch>,
    max_bandwidth_per_player: u32,
)
    requires
        player_step(before, after, batches, max_bandwidth_per_player),
        before.update_queue.pending().len() > 0,
        before.bandwidth_usage + ESTIMATED_UPDATE_SIZE <= max_bandwidth_per_player,
    ensures
        after.update_queue.pending().len() == 0,
        flatten_batches(batches + current_batches(seq![after])) == batch_contents(before.current_batch)
            + before.update_queue.pending(),
{
    let pending = before.update_queue.pending();
    assert(pending.take(pending.len() as int) =~= pending);
    assert(pending.skip(pending.len() as int) =~= Seq::<ReplicationUpdate>::empty());
    lemma_flatten_append(batches, current_batches(seq![after]));
    assert(seq![after].drop_last() =~= Seq::<PlayerNetworkState>::empty());
    assert(current_batches(Seq::<PlayerNetworkState>::empty()) =~= Seq::<ReplicationBatch>::empty());
    assert(seq![after].last() == after);
    match after.current_batch {
        Some(b) => {
            assert(current_batches(seq![after]) =~= seq![b]);
            assert(seq![b].drop_last() =~= Seq::<ReplicationBatch>::empty());
            assert(seq![b].last() == b);
            assert(flatten_batches(Seq::<ReplicationBatch>::empty()) =~= Seq::<ReplicationUpdate>::empty());
            assert(flatten_batches(seq![b]) =~= b.updates@);
        },
        None => {
            assert(current_batches(seq![after]) =~= Seq::<ReplicationBatch>::empty());
            assert(flatten_batches(Seq::<ReplicationBatch>::empty()) =~= Seq::<ReplicationUpdate>::empty());
            assert(flatten_batches(batches) + Seq::<ReplicationUpdate>::empty() =~= flatten_batches(batches));
        },
    }
}

/// Moves a player's queued updates into batches.
///
/// A batch that is due is sent first. Then, while updates are queued and the
/// player has bandwidth for one more update, a batch is started if needed,
/// filled with up to `max_batch_size` updates in priority order, and sent
/// once due. Batches to send are appended to `batches_to_send`.
///
/// No update is lost or repeated: the updates of the batches appended, then
/// those of the batch still being assembled, are those of the batch that
/// was being assembled followed by the updates taken from the queue, in
/// priority order; the queue is emptied when the player has bandwidth and
/// left as it is otherwise.
pub fn process_player_updates(
    state: &mut PlayerNetworkState,
    config: &NetworkConfig,
    batches_to_send: &mut Vec<ReplicationBatch>,
)
    requires
        old(state).update_queue.wf(),
        config.max_batch_size > 0,
        old(state).bandwidth_usage + ESTIMATED_UPDATE_SIZE <= u32::MAX,
        old(state).batch_counter + old(state).update_queue.pending().len() < u32::MAX,
    ensures
        final(batches_to_send)@.take(old(batches_to_send)@.len() as int) == old(batches_to_send)@,
        final(batches_to_send)@.len() >= old(batches_to_send)@.len(),
        player_step(*old(state), *final(state), final(batches_to_send)@.skip(old(batches_to_send)@.len() as int), config.max_bandwidth_per_player),
        forall|i: int| old(batches_to_send)@.len() <= i < final(batches_to_send)@.len()
            ==> (#[trigger] final(batches_to_send)@[i]).updates@.len() <= config.max_batch_size
                + batch_contents(old(state).current_batch).len(),
        batch_contents(final(state).current_batch).len() <= config.max_batch_size
            + batch_contents(old(state).current_batch).len(),
        batch_contents(old(state).current_batch).len() == 0 ==> {
            &&& forall|i: int| old(batches_to_send)@.len() <= i < final(batches_to_send)@.len()
                ==> (#[trigger] final(batches_to_send)@[i]).updates@.len() <= config.max_batch_size
            &&& batch_contents(final(state).current_batch).len() <= config.max_batch_size
        },
{
    let ghost bound: int = config.max_batch_size + batch_contents(old(state).current_batch).len();
    let ghost old_pending = state.update_queue.pending();
    let ghost old_current = batch_contents(state.current_batch);
    let ghost base = batches_to_send@;
    let ghost start_counter = state.batch_counter;
    if state.should_send_batch(config) {
        match state.finalize_batch() {
            Some(batch) => {
                proof {
                    lemma_flatten_push(batches_to_send@.skip(base.len() as int), batch);
                }
                batches_to_send.push(batch);
                assert(batches_to_send@.skip(base.len() as int) =~= old(batches_to_send)@.skip(base.len() as int).push(batch));
            },
            None => {},
        }
    }
    assert(batches_to_send@.take(base.len() as int) =~= base);
    proof {
        if batches_to_send@.len() == base.len() {
            assert(batches_to_send@.skip(base.len() as int) =~= Seq::<ReplicationBatch>::empty());
        }
        assert(old_pending.take(0) =~= Seq::<ReplicationUpdate>::empty());
        assert(old_pending.skip(0) =~= old_pending);
    }
    let ghost mut popped: int = 0;
    while !state.update_queue.is_empty()
        invariant
            state.update_queue.wf(),
            config.max_batch_size > 0,
            0 <= popped <= old_pending.len(),
            state.update_queue.pending() == old_pending.skip(popped),
            batches_to_send@.len() >= base.len(),
            batches_to_send@.take(base.len() as int) == base,
            flatten_batches(batches_to_send@.skip(base.len() as int)) + batch_contents(state.current_batch)
                == old_current + old_pending.take(popped),
            state.player_id == old(state).player_id,
            state.bandwidth_usage == old(state).bandwidth_usage,
            state.bandwidth_usage + ESTIMATED_UPDATE_SIZE <= u32::MAX,
            state.batch_counter + state.update_queue.pending().len() <= start_counter + old_pending.len(),
            start_counter + old_pending.len() < u32::MAX,
            popped > 0 ==> state.bandwidth_usage + ESTIMATED_UPDATE_SIZE <= config.max_bandwidth_per_player,
            bound == config.max_batch_size + batch_contents(old(state).current_batch).len(),
            forall|i: int| base.len() <= i < batches_to_send@.len() ==> (#[trigger] batches_to_send@[i]).updates@.len() <= bound,
            popped == 0 ==> batch_contents(state.current_batch).len() <= batch_contents(old(state).current_batch).len(),
            popped > 0 ==> batch_contents(state.current_batch).len() < config.max_batch_size,
            popped > 0 && state.update_queue.pending().len() > 0 ==> batch_contents(state.current_batch).len() == 0,
        ensures
            forall|i: int| base.len() <= i < batches_to_send@.len() ==> (#[trigger] batches_to_send@[i]).updates@.len() <= bound,
            batch_contents(state.current_batch).len() <= bound,
            popped > 0 ==> batch_contents(state.current_batch).len() < config.max_batch_size,
            popped == 0 ==> batch_contents(state.current_batch).len() <= batch_contents(old(state).current_batch).len(),
            0 <= popped <= old_pending.len(),
            state.update_queue.wf(),
            state.update_queue.pending() == old_pending.skip(popped),
            batches_to_send@.len() >= base.len(),
            batches_to_send@.take(base.len() as int) == base,
            flatten_batches(batches_to_send@.skip(base.len() as int)) + batch_contents(state.current_batch)
                == old_current + old_pending.take(popped),
            state.player_id == old(state).player_id,
            state.bandwidth_usage == old(state).bandwidth_usage,
            popped == (if old_pending.len() > 0 && state.bandwidth_usage + ESTIMATED_UPDATE_SIZE
                <= config.max_bandwidth_per_player { old_pending.len() as int } else { 0 }),
        decreases state.update_queue.pending().len(),
    {
        if !state.has_bandwidth_available(ESTIMATED_UPDATE_SIZE, config.max_bandwidth_per_player) {
            break;
        }
        state.start_batch_if_needed();
        let remaining = state.update_queue.len();
        let updates_to_add = if config.max_batch_size < remaining { config.max_batch_size } else { remaining };
        assert(remaining > 0);
        let ghost start_len = batch_contents(state.current_batch).len();
        assert(start_len + updates_to_add <= bound);
        let mut added: usize = 0;
        while added < updates_to_add
            invariant
                state.update_queue.wf(),
                state.current_batch is Some,
                batch_contents(state.current_batch).len() == start_len + added,
                start_len + updates_to_add <= bound,
                updates_to_add == config.max_batch_size || updates_to_add == remaining,
                1 <= updates_to_add,
                added <= updates_to_add <= remaining,
                state.update_queue.pending().len() == remaining - added,
                0 <= popped <= old_pending.len(),
                state.update_queue.pending() == old_pending.skip(popped),
                batches_to_send@.len() >= base.len(),
                batches_to_send@.take(base.len() as int) == base,
                flatten_batches(batches_to_send@.skip(base.len() as int)) + batch_contents(state.current_batch)
                    == old_current + old_pending.take(popped),
                state.player_id == old(state).player_id,
                state.bandwidth_usage == old(state).bandwidth_usage,
                state.batch_counter + state.update_queue.pending().len() <= start_counter + old_pending.len()
                    + 1 - (if added > 0 { 1int } else { 0 }),
            decreases updates_to_add - added,
        {
            match state.update_queue.pop() {
                Some(update) => {
                    let ghost before = batch_contents(state.current_batch);
                    proof {
                        assert(old_pending.skip(popped)[0] == old_pending[popped]);
                        assert(old_pending.skip(popped).drop_first() =~= old_pending.skip(popped + 1));
                        assert(old_pending.take(popped).push(update) =~= old_pending.take(popped + 1));
                    }
                    let ok = state.add_to_batch(update);
                    proof {
                        popped = popped + 1;
                        assert(batch_contents(state.current_batch) == before.push(update));
                        let f = flatten_batches(batches_to_send@.skip(base.len() as int));
                        assert(f + before.push(update) =~= (f + before).push(update));
                    }
                    added = added + 1;
                },
                None => {
                    assert(false);
                },
            }
        }
        assert(added >= 1);
        if state.should_send_batch(config) {
            match state.finalize_batch() {
                Some(batch) => {
                    let ghost prev = batches_to_send@;
                    proof {
                        lemma_flatten_push(prev.skip(base.len() as int), batch);
                    }
                    batches_to_send.push(batch);
                    assert(batches_to_send@.skip(base.len() as int) =~= prev.skip(base.len() as int).push(batch));
                    assert(batches_to_send@.take(base.len() as int) =~= base);
                    proof {
                        let f = flatten_batches(prev.skip(base.len() as int));
                        assert(f + batch.updates@ + Seq::<ReplicationUpdate>::empty() =~= f + batch.updates@);
                    }
                },
                None => {},
            }
        }
    }
}

/// A player's network state as it is made for a newly added player.
pub open spec fn fresh_state(s: PlayerNetworkState, id: PlayerId, config: NetworkConfig) -> bool {
    &&& s.player_id == id
    &&& s.update_queue.wf()
    &&& s.update_queue.pending().len() == 0
    &&& forall|p: ReplicationPriority| #[trigger] s.update_queue.limit(p) == listed_size(config.priority_queue_sizes@, p)
    &&& s.bandwidth_usage == 0
    &&& s.bandwidth_history@.len() == 0
    &&& s.sequence_counter == 0
    &&& s.batch_counter == 0
    &&& s.current_batch is None
    &&& s.stats == NetworkStats::zero()
}

/// The position of the player `id`'s state, if any.
pub open spec fn state_index(ss: Seq<PlayerNetworkState>, id: PlayerId) -> Option<int> {
    if exists|i: int| 0 <= i < ss.len() && (#[trigger] ss[i]).player_id == id {
        Some(choose|i: int| 0 <= i < ss.len() && (#[trigger] ss[i]).player_id == id)
    } else {
        None
    }
}

/// How often `id` occurs in a list of players.
pub open spec fn occurrences(ts: Seq<PlayerId>, id: PlayerId) -> nat
    decreases ts.len(),
{
    if ts.len() == 0 {
        0
    } else {
        occurrences(ts.drop_last(), id) + if ts.last() == id { 1nat } else { 0nat }
    }
}

/// The views of a queue of updates.
pub open spec fn queue_views(q: Seq<ReplicationUpdate>) -> Seq<UpdateView> {
    q.map_values(|u: ReplicationUpdate| u@)
}

/// A bounded queue after one push: when it has reached its bound, its
/// oldest entry (if any) leaves first.
pub open spec fn push_bounded(q: Seq<UpdateView>, limit: usize, u: UpdateView) -> Seq<UpdateView> {
    (if q.len() >= limit && q.len() > 0 { q.drop_first() } else { q }).push(u)
}

/// A bounded queue after `n` pushes of the same entry.
pub open spec fn pushed_times(q: Seq<UpdateView>, limit: usize, u: UpdateView, n: nat) -> Seq<UpdateView>
    decreases n,
{
    if n == 0 {
        q
    } else {
        push_bounded(pushed_times(q, limit, u, (n - 1) as nat), limit, u)
    }
}

/// Pushing an update onto a queue pushes its view onto the queue's views.
proof fn lemma_queue_views_push(q: Seq<ReplicationUpdate>, limit: usize, after: Seq<ReplicationUpdate>, u: UpdateView)
    requires
        exists|c: ReplicationUpdate| c@ == u && after == (if q.len() >= limit && q.len() > 0 { q.drop_first() } else { q }).push(c),
    ensures
        queue_views(after) == push_bounded(queue_views(q), limit, u),
{
    let c = choose|c: ReplicationUpdate| c@ == u && after == (if q.len() >= limit && q.len() > 0 { q.drop_first() } else { q }).push(c);
    if q.len() >= limit && q.len() > 0 {
        assert(queue_views(after) =~= push_bounded(queue_views(q), limit, u));
    } else {
        assert(queue_views(after) =~= push_bounded(queue_views(q), limit, u));
    }
}

/// The batches being assembled, player by player.
pub open spec fn current_batches(ss: Seq<PlayerNetworkState>) -> Seq<ReplicationBatch>
    decreases ss.len(),
{
    if ss.len() == 0 {
        Seq::empty()
    } else {
        current_batches(ss.drop_last()) + match ss.last().current_batch {
            Some(b) => seq![b],
            None => Seq::empty(),
        }
    }
}

/// Main network replication engine: the network state of each player, the
/// configuration and the global statistics. Transmission is left to the
/// caller, which sends the batches the engine hands out and reports each
/// one back.
#[derive(Debug)]
pub struct NetworkReplicationEngine {
    player_states: Vec<PlayerNetworkState>,
    config: NetworkConfig,
    global_stats: NetworkStats,
}

impl NetworkReplicationEngine {
    /// The players' network states, in the order the players were added.
    pub closed spec fn states(&self) -> Seq<PlayerNetworkState> {
        self.player_states@
    }

    /// The configuration in force.
    pub closed spec fn configuration(&self) -> NetworkConfig {
        self.config
    }

    /// The global statistics.
    pub closed spec fn global(&self) -> NetworkStats {
        self.global_stats
    }

    /// Each player has one state.
    pub open spec fn distinct_players(&self) -> bool {
        forall|i: int, j: int| 0 <= i < j < self.states().len() ==> self.states()[i].player_id
            != self.states()[j].player_id
    }

    /// Each player has one state, and every update queue is consistent.
    pub open spec fn wf(&self) -> bool {
        &&& self.distinct_players()
        &&& forall|i: int| 0 <= i < self.states().len() ==> (#[trigger] self.states()[i]).update_queue.wf()
    }

    /// Creates a new network replication engine with no players
    pub fn new(config: NetworkConfig) -> (e: Self)
        ensures
            e.wf(),
            e.states().len() == 0,
            e.configuration() == config,
            e.global() == NetworkStats::zero(),
    {
        NetworkReplicationEngine { player_states: Vec::new(), config, global_stats: NetworkStats::default() }
    }

    fn find(&self, id: PlayerId) -> (r: Option<usize>)
        requires
            self.distinct_players(),
        ensures
            match r {
                Some(i) => i < self.states().len() && state_index(self.states(), id) == Some(i as int),
                None => state_index(self.states(), id) is None,
            },
    {
        let mut i: usize = 0;
        while i < self.player_states.len()
            invariant
                i <= self.player_states@.len(),
                self.distinct_players(),
                forall|k: int| 0 <= k < i ==> (#[trigger] self.states()[k]).player_id != id,
            decreases self.player_states@.len() - i,
        {
            if self.player_states[i].player_id == id {
                let ghost c = choose|j: int| 0 <= j < self.states().len() && (#[trigger] self.states()[j]).player_id == id;
                assert(c == i as int) by {
                    if c < i as int {
                    } else if c > i as int {
                        assert(self.states()[i as int].player_id != self.states()[c].player_id);
                    }
                }
                return Some(i);
            }
            i = i + 1;
        }
        None
    }

    /// Adds a player with a fresh network state; a player already present
    /// gets a fresh state in place of its old one.
    pub fn add_player(&mut self, player_id: PlayerId)
        requires
            old(self).wf(),
        ensures
            final(self).wf(),
            final(self).configuration() == old(self).configuration(),
            final(self).global() == old(self).global(),
            match state_index(old(self).states(), player_id) {
                Some(i) => {
                    &&& final(self).states().len() == old(self).states().len()
                    &&& fresh_state(final(self).states()[i], player_id, old(self).configuration())
                    &&& forall|j: int| 0 <= j < old(self).states().len() && j != i ==> #[trigger] final(self).states()[j]
                        == old(self).states()[j]
                },
                None => {
                    &&& final(self).states().len() == old(self).states().len() + 1
                    &&& fresh_state(final(self).states().last(), player_id, old(self).configuration())
                    &&& forall|j: int| 0 <= j < old(self).states().len() ==> #[trigger] final(self).states()[j]
                        == old(self).states()[j]
                },
            },
    {
        let state = PlayerNetworkState::new(player_id, &self.config);
        match self.find(player_id) {
            Some(i) => {
                self.player_states.set(i, state);
                proof {
                    assert forall|a: int, b: int| 0 <= a < b < self.states().len() implies self.states()[a].player_id
                        != self.states()[b].player_id by {
                        if a != i as int && b != i as int {
                            assert(self.states()[a] == old(self).states()[a]);
                            assert(self.states()[b] == old(self).states()[b]);
                        } else if a == i as int {
                            assert(self.states()[b] == old(self).states()[b]);
                            assert(old(self).states()[i as int].player_id != old(self).states()[b].player_id);
                        } else {
                            assert(self.states()[a] == old(self).states()[a]);
                            assert(old(self).states()[a].player_id != old(self).states()[i as int].player_id);
                        }
                    }
                    assert forall|a: int| 0 <= a < self.states().len() implies (#[trigger] self.states()[a]).update_queue.wf() by {
                        if a != i as int {
                            assert(self.states()[a] == old(self).states()[a]);
                        }
                    }
                }
            },
            None => {
                self.player_states.push(state);
                proof {
                    let n = old(self).states().len() as int;
                    assert forall|a: int, b: int| 0 <= a < b < self.states().len() implies self.states()[a].player_id
                        != self.states()[b].player_id by {
                        assert(self.states()[a] == old(self).states()[a]);
                        if b < n {
                            assert(self.states()[b] == old(self).states()[b]);
                        } else {
                            assert(old(self).states()[a].player_id != player_id);
                        }
                    }
                    assert forall|a: int| 0 <= a < self.states().len() implies (#[trigger] self.states()[a]).update_queue.wf() by {
                        if a < n {
                            assert(self.states()[a] == old(self).states()[a]);
                        }
                    }
                }
            },
        }
    }

    /// Removes a player from the network system
    pub fn remove_player(&mut self, player_id: PlayerId)
        requires
            old(self).wf(),
        ensures
            final(self).wf(),
            final(self).configuration() == old(self).configuration(),
            final(self).global() == old(self).global(),
            final(self).states() == match state_index(old(self).states(), player_id) {
                Some(i) => old(self).states().remove(i),
                None => old(self).states(),
            },
    {
        match self.find(player_id) {
            Some(i) => {
                self.player_states.remove(i);
                proof {
                    assert(self.states() =~= old(self).states().remove(i as int));
                    assert forall|a: int, b: int| 0 <= a < b < self.states().len() implies self.states()[a].player_id
                        != self.states()[b].player_id by {
                        let oa = if a < i { a } else { a + 1 };
                        let ob = if b < i { b } else { b + 1 };
                        assert(self.states()[a] == old(self).states()[oa]);
                        assert(self.states()[b] == old(self).states()[ob]);
                    }
                    assert forall|a: int| 0 <= a < self.states().len() implies (#[trigger] self.states()[a]).update_queue.wf() by {
                        let oa = if a < i { a } else { a + 1 };
                        assert(self.states()[a] == old(self).states()[oa]);
                    }
                }
            },
            None => {},
        }
    }

    /// Queues a copy of an update for each listed player that has a network
    /// state, once per time the player is listed; players not present are
    /// skipped. Each copy goes through the bounded queue of the update's
    /// priority, which drops its oldest entry when full.
    pub fn queue_update(&mut self, target_players: Vec<PlayerId>, update: ReplicationUpdate)
        requires
            old(self).wf(),
            forall|j: int| 0 <= j < old(self).states().len() ==> (#[trigger] old(self).states()[j]).update_queue.total()
                + target_players@.len() < usize::MAX,
        ensures
            final(self).configuration() == old(self).configuration(),
            final(self).global() == old(self).global(),
            final(self).states().len() == old(self).states().len(),
            forall|j: int| 0 <= j < old(self).states().len() ==> {
                let (o, f) = (old(self).states()[j], #[trigger] final(self).states()[j]);
                &&& f == (PlayerNetworkState { update_queue: f.update_queue, ..o })
                &&& forall|p: ReplicationPriority| #[trigger] f.update_queue.limit(p) == o.update_queue.limit(p)
                &&& forall|p: ReplicationPriority| p != update.priority ==> #[trigger] f.update_queue.queue(p)
                    == o.update_queue.queue(p)
                &&& queue_views(f.update_queue.queue(update.priority)) == pushed_times(
                    queue_views(o.update_queue.queue(update.priority)),
                    o.update_queue.limit(update.priority),
                    update@,
                    occurrences(target_players@, o.player_id),
                )
            },
            (forall|j: int| 0 <= j < old(self).states().len() ==> (#[trigger] old(self).states()[j]).update_queue.limit(
                update.priority,
            ) > 0) ==> final(self).wf(),
    {
        let ghost ts = target_players@;
        let ghost o = old(self).states();
        let ghost p0 = update.priority;
        let mut k: usize = 0;
        while k < target_players.len()
            invariant
                k <= ts.len(),
                ts == target_players@,
                o == old(self).states(),
                p0 == update.priority,
                old(self).wf(),
                forall|j: int| 0 <= j < o.len() ==> (#[trigger] o[j]).update_queue.total() + ts.len() < usize::MAX,
                self.config == old(self).config,
                self.global_stats == old(self).global_stats,
                self.states().len() == o.len(),
                self.distinct_players(),
                forall|j: int| 0 <= j < o.len() ==> {
                    let f = #[trigger] self.states()[j];
                    &&& f == (PlayerNetworkState { update_queue: f.update_queue, ..o[j] })
                    &&& forall|p: ReplicationPriority| #[trigger] f.update_queue.limit(p) == o[j].update_queue.limit(p)
                    &&& forall|p: ReplicationPriority| p != p0 ==> #[trigger] f.update_queue.queue(p)
                        == o[j].update_queue.queue(p)
                    &&& queue_views(f.update_queue.queue(p0)) == pushed_times(
                        queue_views(o[j].update_queue.queue(p0)),
                        o[j].update_queue.limit(p0),
                        update@,
                        occurrences(ts.take(k as int), o[j].player_id),
                    )
                    &&& f.update_queue.total() <= o[j].update_queue.total() + occurrences(ts.take(k as int), o[j].player_id)
                    &&& occurrences(ts.take(k as int), o[j].player_id) <= k
                    &&& o[j].update_queue.limit(p0) > 0 ==> f.update_queue.wf()
                },
            decreases ts.len() - k,
        {
            let t = target_players[k];
            proof {
                assert(ts.take(k as int + 1).drop_last() =~= ts.take(k as int));
            }
            match self.find(t) {
                Some(i) => {
                    let mut st = self.player_states.remove(i);
                    let ghost before = st;
                    st.update_queue.push(update.clone());
                    proof {
                        lemma_queue_views_push(before.update_queue.queue(p0), o[i as int].update_queue.limit(p0), st.update_queue.queue(p0), update@);
                    }
                    self.player_states.insert(i, st);
                    proof {
                        assert forall|a: int, b: int| 0 <= a < b < self.states().len() implies self.states()[a].player_id
                            != self.states()[b].player_id by {
                            assert(self.states()[a].player_id == o[a].player_id);
                            assert(self.states()[b].player_id == o[b].player_id);
                        }
                        assert forall|j: int| 0 <= j < o.len() && j != i implies (#[trigger] o[j]).player_id != t by {
                            assert(self.states()[j].player_id == o[j].player_id);
                            if j < i {
                                assert(old(self).states()[j].player_id != old(self).states()[i as int].player_id);
                            } else {
                                assert(old(self).states()[i as int].player_id != old(self).states()[j].player_id);
                            }
                        }
                    }
                },
                None => {
                    proof {
                        assert forall|j: int| 0 <= j < o.len() implies (#[trigger] o[j]).player_id != t by {
                            assert(self.states()[j].player_id == o[j].player_id);
                        }
                    }
                },
            }
            k = k + 1;
        }
        proof {
            assert(ts.take(k as int) =~= ts);
            if forall|j: int| 0 <= j < old(self).states().len() ==> (#[trigger] old(self).states()[j]).update_queue.limit(
                update.priority,
            ) > 0 {
                assert forall|a: int, b: int| 0 <= a < b < self.states().len() implies self.states()[a].player_id
                    != self.states()[b].player_id by {
                    assert(self.states()[a].player_id == o[a].player_id);
                    assert(self.states()[b].player_id == o[b].player_id);
                }
            }
        }
    }

    /// Moves each player's queued updates into batches (see
    /// `process_player_updates`), player by player, and returns the batches
    /// to send: the batches of the first player, then those of the second,
    /// and so on.
    pub fn process_updates(&mut self) -> (batches: Vec<ReplicationBatch>)
        requires
            old(self).wf(),
            old(self).configuration().max_batch_size > 0,
            forall|j: int| 0 <= j < old(self).states().len() ==> {
                let s = #[trigger] old(self).states()[j];
                &&& s.bandwidth_usage + ESTIMATED_UPDATE_SIZE <= u32::MAX
                &&& s.batch_counter + s.update_queue.pending().len() < u32::MAX
            },
        ensures
            final(self).wf(),
            final(self).configuration() == old(self).configuration(),
            final(self).global() == old(self).global(),
            final(self).states().len() == old(self).states().len(),
            exists|cuts: Seq<int>| {
                &&& cuts.len() == old(self).states().len() + 1
                &&& cuts[0] == 0
                &&& cuts[cuts.len() - 1] == batches@.len()
                &&& forall|j: int| 0 <= j < old(self).states().len() ==> cuts[j] <= cuts[j + 1] && player_step(
                    #[trigger] old(self).states()[j],
                    final(self).states()[j],
                    batches@.subrange(cuts[j], cuts[j + 1]),
                    old(self).configuration().max_bandwidth_per_player,
                )
            },
            (forall|j: int| 0 <= j < old(self).states().len() ==> batch_contents(
                (#[trigger] old(self).states()[j]).current_batch).len() == 0) ==> {
                &&& forall|i: int| 0 <= i < batches@.len() ==> (#[trigger] batches@[i]).updates@.len()
                    <= old(self).configuration().max_batch_size
                &&& forall|j: int| 0 <= j < final(self).states().len() ==> batch_contents(
                    (#[trigger] final(self).states()[j]).current_batch).len() <= old(self).configuration().max_batch_size
            },
    {
        let ghost o = old(self).states();
        let ghost fresh = forall|j: int| 0 <= j < o.len() ==> batch_contents((#[trigger] o[j]).current_batch).len() == 0;
        let mut batches: Vec<ReplicationBatch> = Vec::new();
        let ghost mut cuts: Seq<int> = seq![0int];
        let mut i: usize = 0;
        while i < self.player_states.len()
            invariant
                i <= o.len(),
                o == old(self).states(),
                old(self).wf(),
                self.config == old(self).config,
                self.config.max_batch_size > 0,
                self.global_stats == old(self).global_stats,
                self.states().len() == o.len(),
                forall|j: int| 0 <= j < o.len() ==> {
                    let s = #[trigger] o[j];
                    &&& s.bandwidth_usage + ESTIMATED_UPDATE_SIZE <= u32::MAX
                    &&& s.batch_counter + s.update_queue.pending().len() < u32::MAX
                },
                forall|j: int| i <= j < o.len() ==> #[trigger] self.states()[j] == o[j],
                cuts.len() == i + 1,
                cuts[0] == 0,
                cuts[i as int] == batches@.len(),
                forall|a: int, b: int| 0 <= a <= b <= i ==> cuts[a] <= cuts[b],
                forall|j: int| 0 <= j < i ==> cuts[j] <= cuts[j + 1] && player_step(
                    #[trigger] o[j],
                    self.states()[j],
                    batches@.subrange(cuts[j], cuts[j + 1]),
                    self.config.max_bandwidth_per_player,
                ),
                fresh == (forall|j: int| 0 <= j < o.len() ==> batch_contents((#[trigger] o[j]).current_batch).len() == 0),
                fresh ==> forall|a: int| 0 <= a < batches@.len() ==> (#[trigger] batches@[a]).updates@.len()
                    <= self.config.max_batch_size,
                fresh ==> forall|j: int| 0 <= j < i ==> batch_contents((#[trigger] self.states()[j]).current_batch).len()
                    <= self.config.max_batch_size,
            decreases o.len() - i,
        {
            let ghost before = batches@;
            let mut st = self.player_states.remove(i);
            assert(st == o[i as int]);
            process_player_updates(&mut st, &self.config, &mut batches);
            self.player_states.insert(i, st);
            proof {
                assert forall|j: int| 0 <= j < i implies #[trigger] batches@.subrange(cuts[j], cuts[j + 1]) == before.subrange(
                    cuts[j],
                    cuts[j + 1],
                ) by {
                    assert(0 <= cuts[j] <= cuts[j + 1] <= cuts[i as int]);
                    assert(batches@.subrange(cuts[j], cuts[j + 1]) =~= before.subrange(cuts[j], cuts[j + 1]));
                }
                assert(batches@.subrange(cuts[i as int], batches@.len() as int) =~= batches@.skip(before.len() as int));
                let old_cuts = cuts;
                cuts = cuts.push(batches@.len() as int);
                assert forall|a: int, b: int| 0 <= a <= b <= i + 1 implies cuts[a] <= cuts[b] by {
                    if b <= i {
                        assert(cuts[a] == old_cuts[a] && cuts[b] == old_cuts[b]);
                    } else if a <= i {
                        assert(cuts[a] == old_cuts[a]);
                        assert(old_cuts[a] <= old_cuts[i as int]);
                    }
                }
                assert forall|j: int| 0 <= j < i + 1 implies cuts[j] <= cuts[j + 1] && player_step(
                    #[trigger] o[j],
                    self.states()[j],
                    batches@.subrange(cuts[j], cuts[j + 1]),
                    self.config.max_bandwidth_per_player,
                ) by {}
                if fresh {
                    assert(batch_contents(o[i as int].current_batch).len() == 0);
                    assert forall|a: int| 0 <= a < batches@.len() implies (#[trigger] batches@[a]).updates@.len()
                        <= self.config.max_batch_size by {
                        if a < before.len() {
                            assert(batches@[a] == before[a]);
                        }
                    }
                }
            }
            i = i + 1;
        }
        proof {
            assert forall|j: int| 0 <= j < o.len() implies (#[trigger] self.states()[j]).player_id == o[j].player_id
                && self.states()[j].update_queue.wf() by {
                assert(player_step(o[j], self.states()[j], batches@.subrange(cuts[j], cuts[j + 1]), self.config.max_bandwidth_per_player));
            }
            assert forall|a: int, b: int| 0 <= a < b < self.states().len() implies self.states()[a].player_id
                != self.states()[b].player_id by {
                assert(self.states()[a].player_id == o[a].player_id);
                assert(self.states()[b].player_id == o[b].player_id);
            }
            assert(cuts[cuts.len() - 1] == batches@.len());
        }
        batches
    }

    /// Takes every player's batch being assembled, player by player, and
    /// returns them to send; every player is left without one.
    pub fn flush_all_batches(&mut self) -> (batches: Vec<ReplicationBatch>)
        ensures
            batches@ == current_batches(old(self).states()),
            final(self).states().len() == old(self).states().len(),
            forall|j: int| 0 <= j < old(self).states().len() ==> #[trigger] final(self).states()[j]
                == (PlayerNetworkState { current_batch: None, ..old(self).states()[j] }),
            final(self).configuration() == old(self).configuration(),
            final(self).global() == old(self).global(),
            old(self).wf() ==> final(self).wf(),
    {
        let ghost o = old(self).states();
        let mut batches: Vec<ReplicationBatch> = Vec::new();
        let mut i: usize = 0;
        while i < self.player_states.len()
            invariant
                i <= o.len(),
                o == old(self).states(),
                self.config == old(self).config,
                self.global_stats == old(self).global_stats,
                self.states().len() == o.len(),
                forall|j: int| i <= j < o.len() ==> #[trigger] self.states()[j] == o[j],
                forall|j: int| 0 <= j < i ==> #[trigger] self.states()[j] == (PlayerNetworkState { current_batch: None, ..o[j] }),
                batches@ == current_batches(o.take(i as int)),
            decreases o.len() - i,
        {
            let mut st = self.player_states.remove(i);
            let b = st.current_batch.take();
            self.player_states.insert(i, st);
            match b {
                Some(batch) => {
                    batches.push(batch);
                },
                None => {},
            }
            proof {
                assert(o.take(i as int + 1).drop_last() =~= o.take(i as int));
            }
            i = i + 1;
        }
        proof {
            assert(o.take(i as int) =~= o);
            if old(self).wf() {
                assert forall|a: int, b: int| 0 <= a < b < self.states().len() implies self.states()[a].player_id
                    != self.states()[b].player_id by {
                    assert(self.states()[a].player_id == o[a].player_id);
                    assert(self.states()[b].player_id == o[b].player_id);
                }
                assert forall|a: int| 0 <= a < self.states().len() implies (#[trigger] self.states()[a]).update_queue.wf() by {
                    assert(self.states()[a].update_queue == o[a].update_queue);
                }
            }
        }
        batches
    }

    /// Counts a batch that was sent as `bytes_sent` bytes: in the global
    /// statistics, and for the batch's target player (if present) in its
    /// statistics and its bandwidth usage (see `update_bandwidth_usage`,
    /// with the size truncated to 32 bits).
    pub fn update_stats(&mut self, batch: &ReplicationBatch, bytes_sent: usize)
        requires
            old(self).distinct_players(),
            old(self).global().batches_sent < u64::MAX,
            old(self).global().updates_sent + batch.updates@.len() <= u64::MAX,
            old(self).global().bytes_transmitted + bytes_sent <= u64::MAX,
            state_index(old(self).states(), batch.target_player) matches Some(i) ==> {
                let s = old(self).states()[i];
                &&& s.stats.batches_sent < u64::MAX
                &&& s.stats.updates_sent + batch.updates@.len() <= u64::MAX
                &&& s.stats.bytes_transmitted + bytes_sent <= u64::MAX
                &&& history_bytes(s.bandwidth_history@) + (bytes_sent as u32) <= u32::MAX
            },
        ensures
            final(self).global() == (NetworkStats {
                batches_sent: (old(self).global().batches_sent + 1) as u64,
                updates_sent: (old(self).global().updates_sent + batch.updates@.len()) as u64,
                bytes_transmitted: (old(self).global().bytes_transmitted + bytes_sent) as u64,
                ..old(self).global()
            }),
            final(self).configuration() == old(self).configuration(),
            final(self).states().len() == old(self).states().len(),
            forall|j: int| 0 <= j < old(self).states().len() && Some(j) != state_index(old(self).states(), batch.target_player)
                ==> #[trigger] final(self).states()[j] == old(self).states()[j],
            state_index(old(self).states(), batch.target_player) matches Some(i) ==> {
                let (o, f) = (old(self).states()[i], final(self).states()[i]);
                &&& f.stats == (NetworkStats {
                    batches_sent: (o.stats.batches_sent + 1) as u64,
                    updates_sent: (o.stats.updates_sent + batch.updates@.len()) as u64,
                    bytes_transmitted: (o.stats.bytes_transmitted + bytes_sent) as u64,
                    ..o.stats
                })
                &&& f.bandwidth_history@.last().1 == bytes_sent as u32
                &&& exists|ages_ns: Seq<u128>, k: int| {
                    &&& ages_ns.len() == o.bandwidth_history@.len()
                    &&& first_recent(ages_ns.push(0), k)
                    &&& f.bandwidth_history@.drop_last() == o.bandwidth_history@.skip(k)
                }
                &&& f.bandwidth_usage == history_bytes(f.bandwidth_history@)
                &&& f.player_id == o.player_id
                &&& f.update_queue == o.update_queue
                &&& f.current_batch == o.current_batch
                &&& f.batch_counter == o.batch_counter
                &&& f.sequence_counter == o.sequence_counter
            },
            old(self).wf() ==> final(self).wf(),
    {
        self.global_stats.record_batch(batch.updates.len(), bytes_sent);
        match self.find(batch.target_player) {
            Some(i) => {
                let mut st = self.player_states.remove(i);
                st.stats.record_batch(batch.updates.len(), bytes_sent);
                st.update_bandwidth_usage(bytes_sent as u32);
                self.player_states.insert(i, st);
                proof {
                    if old(self).wf() {
                        assert forall|a: int, b: int| 0 <= a < b < self.states().len() implies self.states()[a].player_id
                            != self.states()[b].player_id by {
                            assert(self.states()[a].player_id == old(self).states()[a].player_id);
                            assert(self.states()[b].player_id == old(self).states()[b].player_id);
                        }
                        assert forall|a: int| 0 <= a < self.states().len() implies (#[trigger] self.states()[a]).update_queue.wf() by {
                            assert(self.states()[a].update_queue == old(self).states()[a].update_queue);
                        }
                    }
                }
            },
            None => {},
        }
    }

    /// Gets the number of players in the network system
    pub fn get_active_player_count(&self) -> (n: usize)
        ensures
            n == self.states().len(),
    {
        self.player_states.len()
    }

    /// Gets global network statistics
    pub fn get_global_stats(&self) -> (s: NetworkStats)
        ensures
            s == self.global(),
    {
        self.global_stats
    }

    /// Gets the statistics of a specific player
    pub fn get_player_stats(&self, player_id: PlayerId) -> (r: Option<NetworkStats>)
        requires
            self.wf(),
        ensures
            r == match state_index(self.states(), player_id) {
                Some(i) => Some(self.states()[i].stats),
                None => None::<NetworkStats>,
            },
    {
        match self.find(player_id) {
            Some(i) => Some(self.player_states[i].stats),
            None => None,
        }
    }

    /// Replaces the network configuration
    pub fn update_config(&mut self, new_config: NetworkConfig)
        ensures
            final(self).configuration() == new_config,
            final(self).states() == old(self).states(),
            final(self).global() == old(self).global(),
    {
        self.config = new_config;
    }
}

/// Statistics for the update scheduler. The average is an `f32` held by
/// its bit pattern; nothing updates it.
#[derive(Debug, Clone, Copy, PartialEq, Eq, Structural)]
pub struct SchedulerStats {
    /// Number of update checks performed
    pub update_checks: u64,
    /// Number of objects that needed updates in last check
    pub objects_needing_updates: usize,
    /// Total objects updated
    pub objects_updated: u64,
    /// Bit pattern of the average objects needing updates per check
    pub avg_objects_needing_updates_bits: u32,
}

/// The channels the scheduler tracks with the interval, in milliseconds,
/// of each one's target frequency: 60 Hz for channel 0, 30 for 1, 15 for 2
/// and 5 for 3.
pub open spec fn scheduler_intervals() -> Seq<(u8, u64)> {
    seq![(0u8, 16u64), (1u8, 33u64), (2u8, 66u64), (3u8, 200u64)]
}

/// The update records of an object: none before its first update, and
/// after one, every tracked channel at the instant of the latest update.
pub open spec fn complete_record(rec: Seq<(u8, tokio::time::Instant)>) -> bool {
    rec.len() == 0 || (rec.len() == scheduler_intervals().len() && forall|k: int|
        0 <= k < rec.len() ==> #[trigger] rec[k] == (scheduler_intervals()[k].0, rec[0].1))
}

/// The ids of a list of scheduled objects, in order.
pub open spec fn scheduled_ids(es: Seq<(GorcObjectId, Seq<(u8, tokio::time::Instant)>)>) -> Seq<GorcObjectId> {
    es.map_values(|e: (GorcObjectId, Seq<(u8, tokio::time::Instant)>)| e.0)
}

/// The position of the object `id`, if scheduled.
pub open spec fn scheduled_index(es: Seq<(GorcObjectId, Seq<(u8, tokio::time::Instant)>)>, id: GorcObjectId) -> Option<int> {
    if exists|i: int| 0 <= i < es.len() && (#[trigger] es[i]).0 == id {
        Some(choose|i: int| 0 <= i < es.len() && (#[trigger] es[i]).0 == id)
    } else {
        None
    }
}

/// Whether the `k`-th tracked channel's interval has passed, given the
/// nanoseconds passed since the last update on each tracked channel.
pub open spec fn channel_due(elapsed_ns: Seq<u128>, channel: (u8, u64), k: int) -> bool {
    elapsed_ns[k] >= channel.1 * NANOS_PER_MILLI
}

/// Whether an object is due for an update: it was never updated (its record
/// is empty), or some tracked channel's interval has passed since its last
/// update.
pub open spec fn object_due(record_len: nat, elapsed_ns: Seq<u128>) -> bool {
    record_len == 0 || exists|k: int| 0 <= k < scheduler_intervals().len() && channel_due(
        elapsed_ns, #[trigger] scheduler_intervals()[k], k)
}

/// The first `n` scheduled objects that are due, in order, given the
/// nanoseconds passed since each one's last update on each tracked channel.
pub open spec fn due_objects(
    es: Seq<(GorcObjectId, Seq<(u8, tokio::time::Instant)>)>,
    elapsed_ns: Seq<Vec<u128>>,
    n: int,
) -> Seq<GorcObjectId>
    decreases n,
{
    if n <= 0 {
        Seq::empty()
    } else {
        let rest = due_objects(es, elapsed_ns, n - 1);
        if object_due(es[n - 1].1.len(), elapsed_ns[n - 1]@) {
            rest.push(es[n - 1].0)
        } else {
            rest
        }
    }
}

/// `elapsed_ns` holds, for each scheduled object and tracked channel, the
/// time the clock measured from the channel's last update to `now` (for an
/// object never updated, the row is not read).
pub open spec fn clock_readings(
    now: tokio::time::Instant,
    es: Seq<(GorcObjectId, Seq<(u8, tokio::time::Instant)>)>,
    elapsed_ns: Seq<Vec<u128>>,
) -> bool {
    &&& elapsed_ns.len() == es.len()
    &&& forall|j: int| 0 <= j < elapsed_ns.len() ==> (#[trigger] elapsed_ns[j])@.len() == scheduler_intervals().len()
    &&& forall|j: int, k: int| 0 <= j < elapsed_ns.len() && 0 <= k < es[j].1.len()
        ==> measured_gap(now, es[j].1[k].1, #[trigger] elapsed_ns[j]@[k])
}

/// An object is among the due objects exactly when it was never updated or
/// some tracked channel's interval has passed since its last update on that
/// channel: such an object is always reported.
pub proof fn law_stale_object_is_due(
    es: Seq<(GorcObjectId, Seq<(u8, tokio::time::Instant)>)>,
    elapsed_ns: Seq<Vec<u128>>,
    n: int,
    j: int,
    k: int,
)
    requires
        0 <= j < n <= es.len(),
        n <= elapsed_ns.len(),
        es[j].1.len() == 0 || (0 <= k < scheduler_intervals().len()
            && elapsed_ns[j]@[k] >= scheduler_intervals()[k].1 * NANOS_PER_MILLI),
    ensures
        due_objects(es, elapsed_ns, n).contains(es[j].0),
    decreases n,
{
    if j < n - 1 {
        law_stale_object_is_due(es, elapsed_ns, n - 1, j, k);
        let rest = due_objects(es, elapsed_ns, n - 1);
        let i = choose|i: int| 0 <= i < rest.len() && rest[i] == es[j].0;
        if object_due(es[n - 1].1.len(), elapsed_ns[n - 1]@) {
            assert(rest.push(es[n - 1].0)[i] == es[j].0);
        }
    } else {
        if es[j].1.len() != 0 {
            assert(channel_due(elapsed_ns[j]@, scheduler_intervals()[k], k));
        }
        let r = due_objects(es, elapsed_ns, n - 1).push(es[j].0);
        assert(r[r.len() - 1] == es[j].0);
    }
}

/// Simple update scheduler for determining when objects need updates
#[derive(Debug)]
pub struct UpdateScheduler {
    object_updates: Vec<(GorcObjectId, Vec<(u8, tokio::time::Instant)>)>,
    target_intervals: Vec<(u8, u64)>,
    stats: SchedulerStats,
}

impl UpdateScheduler {
    /// The scheduled objects with their update records, in the order they
    /// were added.
    pub closed spec fn entries(&self) -> Seq<(GorcObjectId, Seq<(u8, tokio::time::Instant)>)> {
        self.object_updates@.map_values(|e: (GorcObjectId, Vec<(u8, tokio::time::Instant)>)| (e.0, e.1@))
    }

    /// The scheduler's statistics.
    pub closed spec fn statistics(&self) -> SchedulerStats {
        self.stats
    }

    /// Objects are scheduled once each, the tracked channels are fixed, and
    /// every record is complete.
    pub closed spec fn wf(&self) -> bool {
        &&& self.target_intervals@ == scheduler_intervals()
        &&& forall|i: int, j: int| 0 <= i < j < self.entries().len() ==> self.entries()[i].0 != self.entries()[j].0
        &&& forall|i: int| 0 <= i < self.entries().len() ==> complete_record(#[trigger] self.entries()[i].1)
    }

    /// Creates a new update scheduler with no objects
    pub fn new() -> (s: Self)
        ensures
            s.wf(),
            s.entries().len() == 0,
            s.statistics() == (SchedulerStats {
                update_checks: 0,
                objects_needing_updates: 0,
                objects_updated: 0,
                avg_objects_needing_updates_bits: 0,
            }),
    {
        let mut target_intervals: Vec<(u8, u64)> = Vec::new();
        target_intervals.push((0, 16));
        target_intervals.push((1, 33));
        target_intervals.push((2, 66));
        target_intervals.push((3, 200));
        let s = UpdateScheduler {
            object_updates: Vec::new(),
            target_intervals,
            stats: SchedulerStats {
                update_checks: 0,
                objects_needing_updates: 0,
                objects_updated: 0,
                avg_objects_needing_updates_bits: 0,
            },
        };
        assert(s.target_intervals@ =~= scheduler_intervals());
        assert(s.entries() =~= Seq::<(GorcObjectId, Seq<(u8, tokio::time::Instant)>)>::empty());
        s
    }

    fn find(&self, id: GorcObjectId) -> (r: Option<usize>)
        requires
            self.wf(),
        ensures
            match r {
                Some(i) => i < self.entries().len() && scheduled_index(self.entries(), id) == Some(i as int),
                None => scheduled_index(self.entries(), id) is None,
            },
    {
        let mut i: usize = 0;
        while i < self.object_updates.len()
            invariant
                i <= self.object_updates@.len(),
                self.wf(),
                self.entries().len() == self.object_updates@.len(),
                forall|k: int| 0 <= k < i ==> (#[trigger] self.entries()[k]).0 != id,
            decreases self.object_updates@.len() - i,
        {
            assert(self.entries()[i as int].0 == self.object_updates@[i as int].0);
            if self.object_updates[i].0 == id {
                let ghost c = choose|j: int| 0 <= j < self.entries().len() && (#[trigger] self.entries()[j]).0 == id;
                assert(c == i as int) by {
                    if c < i as int {
                    } else if c > i as int {
                        assert(self.entries()[i as int].0 != self.entries()[c].0);
                    }
                }
                return Some(i);
            }
            i = i + 1;
        }
        None
    }

    /// Adds an object with no update records; an object already scheduled
    /// has its records cleared.
    pub fn add_object(&mut self, object_id: GorcObjectId)
        requires
            old(self).wf(),
        ensures
            final(self).wf(),
            final(self).entries() == match scheduled_index(old(self).entries(), object_id) {
                Some(i) => old(self).entries().update(i, (object_id, Seq::empty())),
                None => old(self).entries().push((object_id, Seq::empty())),
            },
            final(self).statistics() == old(self).statistics(),
    {
        let ghost e = (object_id, Seq::<(u8, tokio::time::Instant)>::empty());
        match self.find(object_id) {
            Some(i) => {
                self.object_updates.set(i, (object_id, Vec::new()));
                assert(self.entries() =~= old(self).entries().update(i as int, e));
            },
            None => {
                self.object_updates.push((object_id, Vec::new()));
                assert(self.entries() =~= old(self).entries().push(e));
            },
        }
    }

    /// Removes an object from the scheduler
    pub fn remove_object(&mut self, object_id: GorcObjectId)
        requires
            old(self).wf(),
        ensures
            final(self).wf(),
            final(self).entries() == match scheduled_index(old(self).entries(), object_id) {
                Some(i) => old(self).entries().remove(i),
                None => old(self).entries(),
            },
            final(self).statistics() == old(self).statistics(),
    {
        match self.find(object_id) {
            Some(i) => {
                self.object_updates.remove(i);
                assert(self.entries() =~= old(self).entries().remove(i as int));
                proof {
                    assert forall|a: int, b: int| 0 <= a < b < self.entries().len() implies self.entries()[a].0
                        != self.entries()[b].0 by {
                        let oa = if a < i { a } else { a + 1 };
                        let ob = if b < i { b } else { b + 1 };
                        assert(self.entries()[a] == old(self).entries()[oa]);
                        assert(self.entries()[b] == old(self).entries()[ob]);
                    }
                    assert forall|a: int| 0 <= a < self.entries().len() implies complete_record(
                        #[trigger] self.entries()[a].1,
                    ) by {
                        let oa = if a < i { a } else { a + 1 };
                        assert(self.entries()[a] == old(self).entries()[oa]);
                    }
                }
            },
            None => {},
        }
    }

    /// Whether one object is due, given its record's length and the
    /// nanoseconds passed since its last update on each tracked channel.
    fn row_due(&self, record_len: usize, elapsed_ns: &Vec<u128>) -> (r: bool)
        requires
            self.target_intervals@ == scheduler_intervals(),
            elapsed_ns@.len() == scheduler_intervals().len(),
        ensures
            r == object_due(record_len as nat, elapsed_ns@),
    {
        if record_len == 0 {
            return true;
        }
        let mut k: usize = 0;
        while k < self.target_intervals.len()
            invariant
                k <= self.target_intervals@.len(),
                self.target_intervals@ == scheduler_intervals(),
                elapsed_ns@.len() == scheduler_intervals().len(),
                forall|m: int| 0 <= m < k ==> !channel_due(elapsed_ns@, #[trigger] scheduler_intervals()[m], m),
            decreases self.target_intervals@.len() - k,
        {
            let (_, interval) = self.target_intervals[k];
            if elapsed_ns[k] >= (interval as u128) * NANOS_PER_MILLI {
                assert(channel_due(elapsed_ns@, scheduler_intervals()[k as int], k as int));
                return true;
            }
            k = k + 1;
        }
        false
    }

    /// The objects due for an update, in the order they were added, when
    /// `elapsed_ns[j][k]` nanoseconds have passed since the last update of
    /// the `j`-th object on the `k`-th tracked channel: those never updated,
    /// and those for which some tracked channel's interval has passed.
    pub fn objects_due(&self, elapsed_ns: &Vec<Vec<u128>>) -> (due: Vec<GorcObjectId>)
        requires
            self.wf(),
            elapsed_ns@.len() == self.entries().len(),
            forall|j: int| 0 <= j < elapsed_ns@.len() ==> (#[trigger] elapsed_ns@[j])@.len() == scheduler_intervals().len(),
        ensures
            due@ == due_objects(self.entries(), elapsed_ns@, self.entries().len() as int),
            due@.no_duplicates(),
            forall|i: int| 0 <= i < due@.len() ==> scheduled_ids(self.entries()).contains(#[trigger] due@[i]),
            forall|j: int| 0 <= j < self.entries().len() && (#[trigger] self.entries()[j]).1.len() == 0
                ==> due@.contains(self.entries()[j].0),
    {
        let mut due: Vec<GorcObjectId> = Vec::new();
        let mut i: usize = 0;
        while i < self.object_updates.len()
            invariant
                i <= self.object_updates@.len(),
                self.wf(),
                self.entries().len() == self.object_updates@.len(),
                elapsed_ns@.len() == self.entries().len(),
                forall|j: int| 0 <= j < elapsed_ns@.len() ==> (#[trigger] elapsed_ns@[j])@.len() == scheduler_intervals().len(),
                due@ == due_objects(self.entries(), elapsed_ns@, i as int),
                due@.no_duplicates(),
                forall|a: int| 0 <= a < due@.len() ==> exists|j: int| 0 <= j < i && (#[trigger] due@[a]) == self.entries()[j].0,
                forall|j: int| 0 <= j < i && (#[trigger] self.entries()[j]).1.len() == 0 ==> due@.contains(self.entries()[j].0),
            decreases self.object_updates@.len() - i,
        {
            let ghost ei = self.entries()[i as int];
            assert(ei == (self.object_updates@[i as int].0, self.object_updates@[i as int].1@));
            let record_len = self.object_updates[i].1.len();
            assert(elapsed_ns@[i as int]@.len() == scheduler_intervals().len());
            if self.row_due(record_len, &elapsed_ns[i]) {
                let id = self.object_updates[i].0;
                proof {
                    assert forall|a: int| 0 <= a < due@.len() implies due@[a] != id by {
                        let j = choose|j: int| 0 <= j < i && due@[a] == self.entries()[j].0;
                        assert(self.entries()[j].0 != self.entries()[i as int].0);
                    }
                }
                let ghost before = due@;
                due.push(id);
                proof {
                    assert forall|a: int| 0 <= a < due@.len() implies exists|j: int| 0 <= j < i + 1 && (#[trigger] due@[a])
                        == self.entries()[j].0 by {
                        if a == due@.len() - 1 {
                            assert(due@[a] == self.entries()[i as int].0);
                        } else {
                            assert(due@[a] == before[a]);
                            let j = choose|j: int| 0 <= j < i && before[a] == self.entries()[j].0;
                        }
                    }
                    assert forall|j: int| 0 <= j < i + 1 && (#[trigger] self.entries()[j]).1.len() == 0 implies due@.contains(
                        self.entries()[j].0,
                    ) by {
                        if j < i {
                            let a = choose|a: int| 0 <= a < before.len() && before[a] == self.entries()[j].0;
                            assert(due@[a] == self.entries()[j].0);
                        } else {
                            assert(due@[due@.len() - 1] == self.entries()[j].0);
                        }
                    }
                }
            } else {
                proof {
                    assert forall|j: int| 0 <= j < i + 1 && (#[trigger] self.entries()[j]).1.len() == 0 implies due@.contains(
                        self.entries()[j].0,
                    ) by {
                        if j == i {
                            assert(object_due(record_len as nat, elapsed_ns@[i as int]@));
                        }
                    }
                }
            }
            i = i + 1;
        }
        proof {
            assert forall|a: int| 0 <= a < due@.len() implies scheduled_ids(self.entries()).contains(#[trigger] due@[a]) by {
                let j = choose|j: int| 0 <= j < i && due@[a] == self.entries()[j].0;
                assert(scheduled_ids(self.entries())[j] == due@[a]);
            }
        }
        due
    }

    /// Gets the objects that need updates now: what
    /// [`UpdateScheduler::objects_due`] answers for the time passed since
    /// each object's last update, as the clock reads it. The check is
    /// counted.
    pub fn get_objects_needing_updates(&mut self) -> (due: Vec<GorcObjectId>)
        requires
            old(self).wf(),
            old(self).statistics().update_checks < u64::MAX,
        ensures
            final(self).wf(),
            final(self).entries() == old(self).entries(),
            exists|now: tokio::time::Instant, elapsed_ns: Seq<Vec<u128>>| {
                &&& #[trigger] clock_readings(now, old(self).entries(), elapsed_ns)
                &&& due@ == due_objects(old(self).entries(), elapsed_ns, old(self).entries().len() as int)
            },
            due@.no_duplicates(),
            forall|i: int| 0 <= i < due@.len() ==> scheduled_ids(old(self).entries()).contains(#[trigger] due@[i]),
            forall|j: int| 0 <= j < old(self).entries().len() && (#[trigger] old(self).entries()[j]).1.len() == 0
                ==> due@.contains(old(self).entries()[j].0),
            final(self).statistics() == (SchedulerStats {
                update_checks: (old(self).statistics().update_checks + 1) as u64,
                objects_needing_updates: due@.len() as usize,
                ..old(self).statistics()
            }),
    {
        let now = instant_now();
        let mut elapsed_ns: Vec<Vec<u128>> = Vec::new();
        let mut i: usize = 0;
        while i < self.object_updates.len()
            invariant
                i <= self.object_updates@.len(),
                self.wf(),
                self.entries().len() == self.object_updates@.len(),
                elapsed_ns@.len() == i,
                forall|j: int| 0 <= j < i ==> (#[trigger] elapsed_ns@[j])@.len() == scheduler_intervals().len(),
                forall|j: int, k: int| 0 <= j < i && 0 <= k < self.entries()[j].1.len()
                    ==> measured_gap(now, self.entries()[j].1[k].1, #[trigger] elapsed_ns@[j]@[k]),
                self.entries() == old(self).entries(),
            decreases self.object_updates@.len() - i,
        {
            let ghost ei = self.entries()[i as int];
            assert(ei == (self.object_updates@[i as int].0, self.object_updates@[i as int].1@));
            assert(complete_record(ei.1));
            let rec = &self.object_updates[i].1;
            let mut row: Vec<u128> = Vec::new();
            let mut k: usize = 0;
            while k < self.target_intervals.len()
                invariant
                    k <= self.target_intervals@.len(),
                    self.target_intervals@ == scheduler_intervals(),
                    complete_record(rec@),
                    row@.len() == k,
                    rec@.len() > 0 ==> forall|m: int| 0 <= m < k ==> measured_gap(now, rec@[m].1, #[trigger] row@[m]),
                decreases self.target_intervals@.len() - k,
            {
                if rec.len() == 0 {
                    row.push(0);
                } else {
                    row.push(measure_gap(&now, &rec[k].1));
                }
                k = k + 1;
            }
            let ghost before = elapsed_ns@;
            elapsed_ns.push(row);
            proof {
                assert forall|j: int, k: int| 0 <= j < i + 1 && 0 <= k < self.entries()[j].1.len()
                    implies measured_gap(now, self.entries()[j].1[k].1, #[trigger] elapsed_ns@[j]@[k]) by {
                    if j < i {
                        assert(elapsed_ns@[j] == before[j]);
                    } else {
                        assert(elapsed_ns@[j] == row);
                        assert(self.entries()[j].1 == rec@);
                    }
                }
            }
            i = i + 1;
        }
        assert(clock_readings(now, old(self).entries(), elapsed_ns@));
        let due = self.objects_due(&elapsed_ns);
        self.stats.update_checks = self.stats.update_checks + 1;
        self.stats.objects_needing_updates = due.len();
        due
    }

    /// Marks an object as updated now on every tracked channel; the update
    /// is counted whether or not the object is scheduled.
    pub fn mark_object_updated(&mut self, object_id: GorcObjectId)
        requires
            old(self).wf(),
            old(self).statistics().objects_updated < u64::MAX,
        ensures
            final(self).wf(),
            scheduled_ids(final(self).entries()) == scheduled_ids(old(self).entries()),
            forall|j: int| 0 <= j < old(self).entries().len() && old(self).entries()[j].0 != object_id
                ==> #[trigger] final(self).entries()[j] == old(self).entries()[j],
            scheduled_index(old(self).entries(), object_id) matches Some(j) ==> final(self).entries()[j].1.len()
                == scheduler_intervals().len(),
            final(self).statistics() == (SchedulerStats {
                objects_updated: (old(self).statistics().objects_updated + 1) as u64,
                ..old(self).statistics()
            }),
    {
        let now = instant_now();
        match self.find(object_id) {
            Some(i) => {
                let mut rec: Vec<(u8, tokio::time::Instant)> = Vec::new();
                let mut k: usize = 0;
                while k < self.target_intervals.len()
                    invariant
                        k <= self.target_intervals@.len(),
                        self.target_intervals@ == scheduler_intervals(),
                        rec@.len() == k,
                        forall|m: int| 0 <= m < k ==> #[trigger] rec@[m] == (scheduler_intervals()[m].0, now),
                    decreases self.target_intervals@.len() - k,
                {
                    rec.push((self.target_intervals[k].0, now.clone()));
                    k = k + 1;
                }
                self.object_updates.set(i, (object_id, rec));
                proof {
                    assert(self.entries() =~= old(self).entries().update(i as int, (object_id, rec@)));
                    assert(scheduled_ids(self.entries()) =~= scheduled_ids(old(self).entries()));
                    assert(complete_record(rec@));
                }
            },
            None => {},
        }
        self.stats.objects_updated = self.stats.objects_updated + 1;
    }

    /// Gets scheduler statistics
    pub fn get_stats(&self) -> (s: SchedulerStats)
        ensures
            s == self.statistics(),
    {
        self.stats
    }
}

} // verus!
