//! UDP reliability: ordered and sequenced delivery, retransmission policy.

use crate::text::str_eq;
use std::collections::HashMap;
use vstd::prelude::*;

verus! {

broadcast use vstd::std_specs::hash::group_hash_axioms;

/// Reliability modes for UDP transmission
#[derive(Debug, Clone, Copy, PartialEq, Eq, Structural)]
pub enum ReliabilityMode {
    /// Fire-and-forget, no acknowledgment required
    Unreliable,
    /// Requires acknowledgment, will retransmit
    Reliable,
    /// Sequenced delivery, drops out-of-order packets
    Sequenced,
    /// Ordered delivery, buffers out-of-order packets
    Ordered,
}

/// Congestion control states
#[derive(Debug, Clone, Copy, PartialEq, Eq, Structural)]
pub enum CongestionState {
    SlowStart,
    CongestionAvoidance,
    FastRecovery,
}

/// Reliability statistics
#[derive(Debug, Clone)]
pub struct ReliabilityStats {
    pub pending_packets: usize,
    pub active_connections: usize,
    pub sequence_buffers: usize,
    pub max_retries: u32,
    pub base_rto_ms: u32,
}

/// The reliability mode assigned to an event type name.
pub open spec fn reliability_mode_spec(event_type: Seq<char>) -> ReliabilityMode {
    if event_type == "player_connect"@ || event_type == "player_disconnect"@
        || event_type == "authentication"@ {
        ReliabilityMode::Reliable
    } else if event_type == "position_update"@ || event_type == "movement"@ {
        ReliabilityMode::Sequenced
    } else if event_type == "chat_message"@ || event_type == "action"@ || event_type == "command"@ {
        ReliabilityMode::Ordered
    } else {
        ReliabilityMode::Unreliable
    }
}

/// The connection and authentication event names.
pub open spec fn reliable_event_name(name: Seq<char>) -> bool {
    name =~= seq!['p', 'l', 'a', 'y', 'e', 'r', '_', 'c', 'o', 'n', 'n', 'e', 'c', 't']
        || name =~= seq!['p', 'l', 'a', 'y', 'e', 'r', '_', 'd', 'i', 's', 'c', 'o', 'n', 'n', 'e', 'c', 't']
        || name =~= seq!['a', 'u', 't', 'h', 'e', 'n', 't', 'i', 'c', 'a', 't', 'i', 'o', 'n']
}

/// The movement event names.
pub open spec fn sequenced_event_name(name: Seq<char>) -> bool {
    name =~= seq!['p', 'o', 's', 'i', 't', 'i', 'o', 'n', '_', 'u', 'p', 'd', 'a', 't', 'e']
        || name =~= seq!['m', 'o', 'v', 'e', 'm', 'e', 'n', 't']
}

/// The chat, action and command event names.
pub open spec fn ordered_event_name(name: Seq<char>) -> bool {
    name =~= seq!['c', 'h', 'a', 't', '_', 'm', 'e', 's', 's', 'a', 'g', 'e']
        || name =~= seq!['a', 'c', 't', 'i', 'o', 'n']
        || name =~= seq!['c', 'o', 'm', 'm', 'a', 'n', 'd']
}

/// The mode of every event name: `player_connect`, `player_disconnect` and
/// `authentication` are reliable; `position_update` and `movement` are
/// sequenced; `chat_message`, `action` and `command` are ordered; every
/// other name is unreliable.
pub proof fn law_reliability_table(name: Seq<char>)
    ensures
        reliable_event_name(name) ==> reliability_mode_spec(name) == ReliabilityMode::Reliable,
        sequenced_event_name(name) ==> reliability_mode_spec(name) == ReliabilityMode::Sequenced,
        ordered_event_name(name) ==> reliability_mode_spec(name) == ReliabilityMode::Ordered,
        !reliable_event_name(name) && !sequenced_event_name(name) && !ordered_event_name(name)
            ==> reliability_mode_spec(name) == ReliabilityMode::Unreliable,
{
    reveal_strlit("player_connect");
    reveal_strlit("player_disconnect");
    reveal_strlit("authentication");
    reveal_strlit("position_update");
    reveal_strlit("movement");
    reveal_strlit("chat_message");
    reveal_strlit("action");
    reveal_strlit("command");
    assert("player_connect"@ =~= seq!['p', 'l', 'a', 'y', 'e', 'r', '_', 'c', 'o', 'n', 'n', 'e', 'c', 't']);
    assert("player_disconnect"@ =~= seq!['p', 'l', 'a', 'y', 'e', 'r', '_', 'd', 'i', 's', 'c', 'o', 'n', 'n', 'e', 'c', 't']);
    assert("authentication"@ =~= seq!['a', 'u', 't', 'h', 'e', 'n', 't', 'i', 'c', 'a', 't', 'i', 'o', 'n']);
    assert("position_update"@ =~= seq!['p', 'o', 's', 'i', 't', 'i', 'o', 'n', '_', 'u', 'p', 'd', 'a', 't', 'e']);
    assert("movement"@ =~= seq!['m', 'o', 'v', 'e', 'm', 'e', 'n', 't']);
    assert("chat_message"@ =~= seq!['c', 'h', 'a', 't', '_', 'm', 'e', 's', 's', 'a', 'g', 'e']);
    assert("action"@ =~= seq!['a', 'c', 't', 'i', 'o', 'n']);
    assert("command"@ =~= seq!['c', 'o', 'm', 'm', 'a', 'n', 'd']);
}

/// Determines the reliability mode for an event type: connection and
/// authentication events are reliable, movement is sequenced, chat, actions
/// and commands are ordered, and everything else is unreliable.
pub fn get_reliability_mode_for_event(event_type: &str) -> (mode: ReliabilityMode)
    ensures
        mode == reliability_mode_spec(event_type@),
        reliable_event_name(event_type@) ==> mode == ReliabilityMode::Reliable,
        sequenced_event_name(event_type@) ==> mode == ReliabilityMode::Sequenced,
        ordered_event_name(event_type@) ==> mode == ReliabilityMode::Ordered,
        !reliable_event_name(event_type@) && !sequenced_event_name(event_type@) && !ordered_event_name(event_type@)
            ==> mode == ReliabilityMode::Unreliable,
{
    proof {
        law_reliability_table(event_type@);
    }
    if str_eq(event_type, "player_connect") || str_eq(event_type, "player_disconnect")
        || str_eq(event_type, "authentication") {
        ReliabilityMode::Reliable
    } else if str_eq(event_type, "position_update") || str_eq(event_type, "movement") {
        ReliabilityMode::Sequenced
    } else if str_eq(event_type, "chat_message") || str_eq(event_type, "action") || str_eq(
        event_type,
        "command",
    ) {
        ReliabilityMode::Ordered
    } else {
        ReliabilityMode::Unreliable
    }
}

/// Whether packets of a mode are delivered through a per-sender sequence
/// buffer.
pub fn uses_sequence_buffer(mode: ReliabilityMode) -> (r: bool)
    ensures
        r == (mode == ReliabilityMode::Sequenced || mode == ReliabilityMode::Ordered),
{
    match mode {
        ReliabilityMode::Sequenced | ReliabilityMode::Ordered => true,
        _ => false,
    }
}

/// What happens to a pending packet whose retry time has come.
#[derive(Debug, Clone, Copy, PartialEq, Eq, Structural)]
pub enum RetransmitDecision {
    /// The packet has used up its retries and is dropped.
    Drop,
    /// The packet is sent again; `retries` is its new retry count and the
    /// next timeout is the base timeout times `backoff_factor`.
    Retry { retries: u32, backoff_factor: u32 },
}

/// `2^n` for a small exponent.
pub open spec fn pow2(n: nat) -> nat
    decreases n,
{
    if n == 0 {
        1
    } else {
        2 * pow2((n - 1) as nat)
    }
}

/// Decides the fate of a pending packet whose retry time has come: drop it
/// once `max_retries` retries are used, otherwise count one more retry and
/// back off exponentially, the factor being `2^min(retries, 5)`.
pub fn retransmission_decision(retries: u32, max_retries: u32) -> (d: RetransmitDecision)
    ensures
        retries >= max_retries ==> d == RetransmitDecision::Drop,
        retries < max_retries ==> d == (RetransmitDecision::Retry {
            retries: (retries + 1) as u32,
            backoff_factor: pow2(if retries + 1 < 5 { (retries + 1) as nat } else { 5 }) as u32,
        }),
{
    if retries >= max_retries {
        RetransmitDecision::Drop
    } else {
        let new_retries = retries + 1;
        let exponent: u32 = if new_retries < 5 { new_retries } else { 5 };
        let mut factor: u32 = 1;
        let mut k: u32 = 0;
        while k < exponent
            invariant
                k <= exponent <= 5,
                factor == pow2(k as nat),
                factor <= 32,
            decreases exponent - k,
        {
            assert(pow2((k + 1) as nat) == 2 * pow2(k as nat));
            factor = factor * 2;
            k = k + 1;
            assert(factor <= 32) by {
                assert(pow2(0) == 1);
                assert(pow2(1) == 2);
                assert(pow2(2) == 4);
                assert(pow2(3) == 8);
                assert(pow2(4) == 16);
                assert(pow2(5) == 32);
            }
        }
        RetransmitDecision::Retry { retries: new_retries, backoff_factor: factor }
    }
}

/// `a + i` in the 32-bit wrapping sequence-number space.
pub open spec fn seq_after(a: u32, i: int) -> u32 {
    ((a as int + i) % 0x1_0000_0000) as u32
}

/// The keys that a delivery list took from the reorder buffer: every entry
/// after the first.
pub open spec fn released_keys(delivered: Seq<(u32, Vec<u8>)>) -> Set<u32> {
    Set::new(|k: u32| exists|i: int| 1 <= i < delivered.len() && #[trigger] delivered[i].0 == k)
}

/// What ordered delivery does with a packet: the expected packet is
/// delivered together with every buffered packet that follows it without a
/// gap; a later packet is buffered while there is room; an earlier one is
/// ignored.
pub open spec fn ordered_delivery(
    before: SequenceBuffer,
    after: SequenceBuffer,
    sequence: u32,
    data: Vec<u8>,
    d: Seq<(u32, Vec<u8>)>,
) -> bool {
    &&& after.max_buffer_size == before.max_buffer_size
    &&& sequence == before.next_expected ==> {
        &&& d.len() >= 1
        &&& d[0].0 == sequence
        &&& d[0].1 == data
        &&& forall|i: int| 1 <= i < d.len() ==> {
            &&& #[trigger] d[i].0 == seq_after(sequence, i)
            &&& before.buffer@.contains_key(d[i].0)
            &&& d[i].1 == before.buffer@[d[i].0]
        }
        &&& after.next_expected == seq_after(sequence, d.len() as int)
        &&& !after.buffer@.contains_key(after.next_expected)
        &&& after.buffer@ == before.buffer@.remove_keys(released_keys(d))
    }
    &&& sequence > before.next_expected ==> {
        &&& d.len() == 0
        &&& after.next_expected == before.next_expected
        &&& after.buffer@ == if before.buffer@.len() < before.max_buffer_size {
            before.buffer@.insert(sequence, data)
        } else {
            before.buffer@
        }
    }
    &&& sequence < before.next_expected ==> {
        &&& d.len() == 0
        &&& after.next_expected == before.next_expected
        &&& after.buffer@ == before.buffer@
    }
}

/// Sequence buffer for ordered delivery.
#[derive(Debug)]
pub struct SequenceBuffer {
    /// Expected next sequence number
    pub next_expected: u32,
    /// Buffer for out-of-order packets
    pub buffer: HashMap<u32, Vec<u8>>,
    /// Maximum buffer size
    pub max_buffer_size: usize,
}

impl SequenceBuffer {
    /// Creates an empty buffer that expects sequence number 0 first.
    pub fn new(max_buffer_size: usize) -> (res: Self)
        ensures
            res.next_expected == 0,
            res.buffer@ == Map::<u32, Vec<u8>>::empty(),
            res.max_buffer_size == max_buffer_size,
    {
        SequenceBuffer { next_expected: 0, buffer: HashMap::new(), max_buffer_size }
    }

    /// Processes a packet and returns the packets now ready for delivery, in
    /// sequence order.
    ///
    /// The expected packet is delivered at once together with every buffered
    /// packet that follows it without a gap; a later packet is buffered while
    /// there is room; an earlier packet is ignored.
    pub fn process_packet(&mut self, sequence: u32, data: Vec<u8>) -> (deliverable: Vec<(u32, Vec<u8>)>)
        ensures
            ordered_delivery(*old(self), *final(self), sequence, data, deliverable@),
    {
        let mut deliverable: Vec<(u32, Vec<u8>)> = Vec::new();
        if sequence == self.next_expected {
            deliverable.push((sequence, data));
            self.next_expected = self.next_expected.wrapping_add(1);
            assert(released_keys(deliverable@) =~= Set::empty());
            loop
                invariant
                    deliverable@.len() >= 1,
                    deliverable@[0].0 == sequence,
                    deliverable@[0].1 == data,
                    forall|i: int| 1 <= i < deliverable@.len() ==> {
                        &&& #[trigger] deliverable@[i].0 == seq_after(sequence, i)
                        &&& old(self).buffer@.contains_key(deliverable@[i].0)
                        &&& deliverable@[i].1 == old(self).buffer@[deliverable@[i].0]
                    },
                    self.next_expected == seq_after(sequence, deliverable@.len() as int),
                    self.buffer@ == old(self).buffer@.remove_keys(released_keys(deliverable@)),
                    self.max_buffer_size == old(self).max_buffer_size,
                    sequence == old(self).next_expected,
                ensures
                    deliverable@.len() >= 1,
                    deliverable@[0].0 == sequence,
                    deliverable@[0].1 == data,
                    forall|i: int| 1 <= i < deliverable@.len() ==> {
                        &&& #[trigger] deliverable@[i].0 == seq_after(sequence, i)
                        &&& old(self).buffer@.contains_key(deliverable@[i].0)
                        &&& deliverable@[i].1 == old(self).buffer@[deliverable@[i].0]
                    },
                    self.next_expected == seq_after(sequence, deliverable@.len() as int),
                    !self.buffer@.contains_key(self.next_expected),
                    self.buffer@ == old(self).buffer@.remove_keys(released_keys(deliverable@)),
                    self.max_buffer_size == old(self).max_buffer_size,
                decreases self.buffer@.len(),
            {
                let key = self.next_expected;
                match self.buffer.remove(&key) {
                    Some(buffered) => {
                        let ghost before = deliverable@;
                        proof {
                            assert(self.buffer@.dom().finite());
                        }
                        deliverable.push((key, buffered));
                        self.next_expected = self.next_expected.wrapping_add(1);
                        assert(released_keys(deliverable@) =~= released_keys(before).insert(key)) by {
                            assert forall|k: u32| released_keys(deliverable@).contains(k) implies released_keys(before).insert(k).contains(k) by {}
                            assert forall|k: u32| #[trigger] released_keys(before).insert(key).contains(k) implies released_keys(deliverable@).contains(k) by {
                                if k == key {
                                    assert(deliverable@[before.len() as int].0 == k);
                                } else {
                                    let i = choose|i: int| 1 <= i < before.len() && #[trigger] before[i].0 == k;
                                    assert(deliverable@[i].0 == k);
                                }
                            }
                        }
                        assert(self.buffer@ =~= old(self).buffer@.remove_keys(released_keys(deliverable@)));
                    },
                    None => {
                        break;
                    },
                }
            }
        } else if sequence > self.next_expected {
            if self.buffer.len() < self.max_buffer_size {
                self.buffer.insert(sequence, data);
            }
        }
        deliverable
    }

    /// Sequenced delivery: a packet at or after the expected number is
    /// delivered and moves the expected number past it; an older packet is
    /// dropped. The reorder buffer is not touched.
    pub fn process_sequenced(&mut self, sequence: u32, data: Vec<u8>) -> (deliverable: Vec<(u32, Vec<u8>)>)
        ensures
            final(self).buffer@ == old(self).buffer@,
            final(self).max_buffer_size == old(self).max_buffer_size,
            sequence >= old(self).next_expected ==> {
                &&& deliverable@ == seq![(sequence, data)]
                &&& final(self).next_expected == seq_after(sequence, 1)
            },
            sequence < old(self).next_expected ==> {
                &&& deliverable@.len() == 0
                &&& final(self).next_expected == old(self).next_expected
            },
    {
        let mut deliverable: Vec<(u32, Vec<u8>)> = Vec::new();
        if sequence >= self.next_expected {
            self.next_expected = sequence.wrapping_add(1);
            deliverable.push((sequence, data));
        }
        deliverable
    }
}

/// Whether a packet with this sequence number and data was among the first
/// `k` packets received.
pub open spec fn was_received(packets: Seq<(u32, Vec<u8>)>, k: int, p: (u32, Vec<u8>)) -> bool {
    exists|i: int| 0 <= i < k && packets[i] == p
}

/// What holds of an ordered buffer after the first `k` packets, given that
/// `delivered` is everything it handed out so far: it handed out the
/// numbers `0, 1, ...` up to the one it expects next, each with the data
/// of a received packet, and it holds only later packets that were received.
pub open spec fn ordered_stream_state(
    b: SequenceBuffer,
    delivered: Seq<(u32, Vec<u8>)>,
    packets: Seq<(u32, Vec<u8>)>,
    k: int,
) -> bool {
    &&& b.next_expected == delivered.len()
    &&& forall|j: int| 0 <= j < delivered.len() ==> {
        &&& (#[trigger] delivered[j]).0 == j
        &&& was_received(packets, k, delivered[j])
    }
    &&& forall|key: u32| #[trigger] b.buffer@.contains_key(key) ==> {
        &&& b.next_expected < key < u32::MAX
        &&& was_received(packets, k, (key, b.buffer@[key]))
    }
}

/// Within one delivery, the numbers handed out count up from the packet's
/// own number without wrapping, as long as every buffered number is below
/// the largest.
proof fn lemma_delivery_counts_up(before: SequenceBuffer, sequence: u32, d: Seq<(u32, Vec<u8>)>, n: int)
    requires
        sequence < u32::MAX,
        0 <= n <= d.len(),
        d.len() >= 1,
        d[0].0 == sequence,
        forall|i: int| 1 <= i < d.len() ==> {
            &&& #[trigger] d[i].0 == seq_after(sequence, i)
            &&& before.buffer@.contains_key(d[i].0)
        },
        forall|key: u32| #[trigger] before.buffer@.contains_key(key) ==> key < u32::MAX,
    ensures
        forall|i: int| 0 <= i < n ==> #[trigger] d[i].0 == sequence + i,
        n >= 1 ==> sequence + n <= u32::MAX,
    decreases n,
{
    if n > 1 {
        lemma_delivery_counts_up(before, sequence, d, n - 1);
        assert(d[n - 2].0 == sequence + (n - 2));
        assert(d[n - 2].0 < u32::MAX);
        assert(d[n - 1].0 == seq_after(sequence, n - 1));
        assert(d[n - 1].0 == sequence + (n - 1));
        assert(d[n - 1].0 < u32::MAX);
    }
}

/// One ordered delivery keeps the stream state.
proof fn lemma_ordered_stream_step(
    before: SequenceBuffer,
    after: SequenceBuffer,
    delivered: Seq<(u32, Vec<u8>)>,
    packets: Seq<(u32, Vec<u8>)>,
    k: int,
    d: Seq<(u32, Vec<u8>)>,
)
    requires
        0 <= k < packets.len(),
        packets[k].0 < u32::MAX,
        ordered_stream_state(before, delivered, packets, k),
        ordered_delivery(before, after, packets[k].0, packets[k].1, d),
    ensures
        ordered_stream_state(after, delivered + d, packets, k + 1),
{
    let sequence = packets[k].0;
    let data = packets[k].1;
    let all = delivered + d;
    assert forall|p: (u32, Vec<u8>)| #[trigger] was_received(packets, k, p) implies was_received(packets, k + 1, p) by {
        let i = choose|i: int| 0 <= i < k && packets[i] == p;
        assert(0 <= i < k + 1 && packets[i] == p);
    }
    if sequence == before.next_expected {
        lemma_delivery_counts_up(before, sequence, d, d.len() as int);
        assert(after.next_expected == sequence + d.len());
        assert forall|j: int| 0 <= j < all.len() implies {
            &&& (#[trigger] all[j]).0 == j
            &&& was_received(packets, k + 1, all[j])
        } by {
            if j < delivered.len() {
                assert(all[j] == delivered[j]);
                assert(was_received(packets, k, delivered[j]));
            } else {
                let i = j - delivered.len();
                assert(all[j] == d[i]);
                assert(d[i].0 == sequence + i);
                if i == 0 {
                    assert(d[0] == packets[k]);
                    assert(0 <= k < k + 1 && packets[k] == all[j]);
                } else {
                    let key = d[i].0;
                    assert(before.buffer@.contains_key(key));
                    assert(was_received(packets, k, (key, before.buffer@[key])));
                    assert(d[i] == (key, before.buffer@[key]));
                }
            }
        }
        assert forall|key: u32| #[trigger] after.buffer@.contains_key(key) implies {
            &&& after.next_expected < key < u32::MAX
            &&& was_received(packets, k + 1, (key, after.buffer@[key]))
        } by {
            assert(before.buffer@.contains_key(key));
            assert(!released_keys(d).contains(key));
            assert(after.buffer@[key] == before.buffer@[key]);
            if key <= sequence + d.len() {
                let i = key - sequence;
                if i < d.len() {
                    assert(d[i].0 == key);
                    assert(released_keys(d).contains(key));
                }
            }
            assert(was_received(packets, k, (key, before.buffer@[key])));
        }
    } else {
        assert(d.len() == 0);
        assert(all =~= delivered);
        assert forall|j: int| 0 <= j < all.len() implies {
            &&& (#[trigger] all[j]).0 == j
            &&& was_received(packets, k + 1, all[j])
        } by {
            assert(all[j] == delivered[j]);
            assert(was_received(packets, k, delivered[j]));
        }
        assert forall|key: u32| #[trigger] after.buffer@.contains_key(key) implies {
            &&& after.next_expected < key < u32::MAX
            &&& was_received(packets, k + 1, (key, after.buffer@[key]))
        } by {
            if sequence > before.next_expected && key == sequence && before.buffer@.len() < before.max_buffer_size {
                assert(after.buffer@[key] == data);
                assert(0 <= k < k + 1 && packets[k] == (key, data));
            } else {
                assert(before.buffer@.contains_key(key));
                assert(after.buffer@[key] == before.buffer@[key]);
                assert(was_received(packets, k, (key, before.buffer@[key])));
            }
        }
    }
}

/// The stream state after the first `k` packets of a run that starts empty.
proof fn lemma_ordered_stream_prefix(
    states: Seq<SequenceBuffer>,
    packets: Seq<(u32, Vec<u8>)>,
    outputs: Seq<Seq<(u32, Vec<u8>)>>,
    k: int,
)
    requires
        states.len() == packets.len() + 1,
        outputs.len() == packets.len(),
        states[0].next_expected == 0,
        states[0].buffer@ == Map::<u32, Vec<u8>>::empty(),
        forall|i: int| 0 <= i < packets.len() ==> (#[trigger] packets[i]).0 < u32::MAX,
        forall|i: int| 0 <= i < packets.len() ==> ordered_delivery(
            #[trigger] states[i], states[i + 1], packets[i].0, packets[i].1, outputs[i]),
        0 <= k <= packets.len(),
    ensures
        ordered_stream_state(states[k], outputs.take(k).flatten(), packets, k),
    decreases k,
{
    if k == 0 {
        assert(outputs.take(0) =~= Seq::<Seq<(u32, Vec<u8>)>>::empty());
        assert(outputs.take(0).flatten() =~= Seq::<(u32, Vec<u8>)>::empty());
    } else {
        lemma_ordered_stream_prefix(states, packets, outputs, k - 1);
        assert(packets[k - 1].0 < u32::MAX);
        assert(ordered_delivery(states[k - 1], states[k], packets[k - 1].0, packets[k - 1].1, outputs[k - 1]));
        lemma_ordered_stream_step(states[k - 1], states[k], outputs.take(k - 1).flatten(), packets, k - 1, outputs[k - 1]);
        assert(outputs.take(k) =~= outputs.take(k - 1).push(outputs[k - 1]));
        outputs.take(k - 1).lemma_flatten_push(outputs[k - 1]);
    }
}

/// Ordered delivery over a whole run: starting from an empty buffer and
/// feeding it packets whose numbers are below the largest, everything it
/// hands out, taken together in order, carries the numbers `0, 1, 2, ...`
/// up to the one it expects next, each exactly once and each with the data
/// of a packet received with that number.
pub proof fn law_ordered_delivery_stream(
    states: Seq<SequenceBuffer>,
    packets: Seq<(u32, Vec<u8>)>,
    outputs: Seq<Seq<(u32, Vec<u8>)>>,
)
    requires
        states.len() == packets.len() + 1,
        outputs.len() == packets.len(),
        states[0].next_expected == 0,
        states[0].buffer@ == Map::<u32, Vec<u8>>::empty(),
        forall|i: int| 0 <= i < packets.len() ==> (#[trigger] packets[i]).0 < u32::MAX,
        forall|i: int| 0 <= i < packets.len() ==> ordered_delivery(
            #[trigger] states[i], states[i + 1], packets[i].0, packets[i].1, outputs[i]),
    ensures
        outputs.flatten().len() == states.last().next_expected,
        forall|j: int| 0 <= j < outputs.flatten().len() ==> {
            &&& (#[trigger] outputs.flatten()[j]).0 == j
            &&& exists|i: int| 0 <= i < packets.len() && packets[i] == outputs.flatten()[j]
        },
{
    let n = packets.len() as int;
    lemma_ordered_stream_prefix(states, packets, outputs, n);
    assert(outputs.take(n) =~= outputs);
    let all = outputs.flatten();
    assert forall|j: int| 0 <= j < all.len() implies {
        &&& (#[trigger] all[j]).0 == j
        &&& exists|i: int| 0 <= i < packets.len() && packets[i] == all[j]
    } by {
        assert(was_received(packets, n, all[j]));
    }
}

/// Processes a received packet according to its reliability mode:
/// unreliable and reliable packets are delivered as they come, sequenced
/// ones through [`SequenceBuffer::process_sequenced`], ordered ones through
/// [`SequenceBuffer::process_packet`].
pub fn process_received_packet(
    buffer: &mut SequenceBuffer,
    sequence: u32,
    data: Vec<u8>,
    reliability: ReliabilityMode,
) -> (deliverable: Vec<(u32, Vec<u8>)>)
    ensures
        (reliability == ReliabilityMode::Unreliable || reliability == ReliabilityMode::Reliable)
            ==> deliverable@ == seq![(sequence, data)] && *final(buffer) == *old(buffer),
        reliability == ReliabilityMode::Sequenced ==> final(buffer).buffer@ == old(buffer).buffer@
            && if sequence >= old(buffer).next_expected {
            deliverable@ == seq![(sequence, data)] && final(buffer).next_expected == seq_after(sequence, 1)
        } else {
            deliverable@.len() == 0 && final(buffer).next_expected == old(buffer).next_expected
        },
        reliability == ReliabilityMode::Ordered ==> ordered_delivery(*old(buffer), *final(buffer), sequence, data, deliverable@),
{
    match reliability {
        ReliabilityMode::Unreliable | ReliabilityMode::Reliable => {
            let mut deliverable: Vec<(u32, Vec<u8>)> = Vec::new();
            deliverable.push((sequence, data));
            deliverable
        },
        ReliabilityMode::Sequenced => buffer.process_sequenced(sequence, data),
        ReliabilityMode::Ordered => buffer.process_packet(sequence, data),
    }
}

} // verus!
