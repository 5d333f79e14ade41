//! GORC object instances: identifiers, per-channel subscriptions, and the
//! subscription changes that follow players and objects moving between
//! replication zones.
//!
//! Whether a player is inside a zone is a distance test on floating-point
//! positions; it is made by the caller and handed in as a flag. What follows
//! from the flags (who subscribes, who leaves, which zone events are raised)
//! is decided here.

use crate::types::{is_v4_uuid, parse_uuid_value, random_uuid_value, uuid_parse, uuid_text, uuid_value_text, PlayerId};
use crate::utils::instant_now;
use std::collections::{HashMap, HashSet};
use vstd::prelude::*;
use vstd::std_specs::hash::{axiom_spec_hash_keys_iter, spec_hash_keys_iter};
use vstd::std_specs::iter::IteratorSpec;

verus! {

broadcast use vstd::std_specs::hash::group_hash_axioms;

/// Universal identifier for replicated object instances (the 128-bit value
/// of a UUID).
#[derive(Debug, Clone, Copy, PartialEq, Eq, Hash, Structural)]
pub struct GorcObjectId(pub u128);

impl GorcObjectId {
    /// Creates a new random object ID (UUID v4).
    pub fn new() -> (r: Self)
        ensures
            is_v4_uuid(r.0),
    {
        GorcObjectId(random_uuid_value())
    }

    /// Parses an object ID from the text of a UUID.
    pub fn from_str(s: &str) -> (r: Result<Self, uuid::Error>)
        ensures
            match r {
                Ok(id) => uuid_parse(s@) == Some(id.0),
                Err(_) => uuid_parse(s@) is None,
            },
    {
        match parse_uuid_value(s) {
            Ok(v) => Ok(GorcObjectId(v)),
            Err(e) => Err(e),
        }
    }

    /// The hyphenated UUID text of this ID.
    pub fn to_string(&self) -> (r: String)
        ensures
            r@ == uuid_text(self.0),
    {
        uuid_value_text(self.0)
    }
}

/// Replication statistics of an object instance.
#[derive(Debug, Clone, Copy, PartialEq, Eq, Structural)]
pub struct ObjectStats {
    /// Total replication updates sent
    pub updates_sent: u64,
    /// Total bytes transmitted
    pub bytes_transmitted: u64,
    /// Number of subscriptions added and not removed, over all channels
    pub total_subscribers: usize,
    /// Zone transition events
    pub zone_transitions: u64,
}

/// What one zone check of a player against one layer of an object found.
/// Checks are handed in by increasing layer radius.
#[derive(Debug, Clone, Copy, PartialEq, Eq, Structural)]
pub struct LayerCheck {
    /// The layer's channel.
    pub channel: u8,
    /// Whether the player was inside the layer's zone before the move.
    pub was_in_zone: bool,
    /// Whether the player is inside the layer's zone after the move.
    pub is_in_zone: bool,
    /// Whether the layer has the smallest radius of the object's layers.
    pub smallest: bool,
    /// Whether the layer's radius is greater than the smallest.
    pub beyond_smallest: bool,
}

/// The subscription state a move acts on: the subscribers of each channel,
/// whether the player was found inside an innermost zone, the zone events
/// raised so far, and the counters.
pub struct MoveState {
    pub channels: Map<u8, Set<u128>>,
    pub inner: bool,
    pub events: Seq<(PlayerId, u8, bool)>,
    pub transitions: int,
    pub total: int,
}

/// One check of an object move: a larger zone of a player already found in
/// an innermost zone is skipped while the player is subscribed to it;
/// otherwise a player entering a zone unsubscribed is subscribed (an entry
/// event), and one leaving a zone subscribed is unsubscribed (an exit
/// event).
pub open spec fn move_step(s: MoveState, p: PlayerId, c: LayerCheck) -> MoveState {
    let subbed = s.channels[c.channel].contains(p.0);
    if s.inner && c.beyond_smallest && subbed {
        s
    } else {
        let inner = s.inner || (c.is_in_zone && c.smallest);
        if !c.was_in_zone && c.is_in_zone && !subbed {
            MoveState {
                channels: s.channels.insert(c.channel, s.channels[c.channel].insert(p.0)),
                inner,
                events: s.events.push((p, c.channel, true)),
                transitions: s.transitions + 1,
                total: s.total + 1,
            }
        } else if c.was_in_zone && !c.is_in_zone && subbed {
            MoveState {
                channels: s.channels.insert(c.channel, s.channels[c.channel].remove(p.0)),
                inner,
                events: s.events.push((p, c.channel, false)),
                transitions: s.transitions + 1,
                total: if s.total > 0 { s.total - 1 } else { 0 },
            }
        } else {
            MoveState { inner, ..s }
        }
    }
}

/// The checks of an object move, in order.
pub open spec fn move_fold(s: MoveState, p: PlayerId, cs: Seq<LayerCheck>) -> MoveState
    decreases cs.len(),
{
    if cs.len() == 0 {
        s
    } else {
        move_step(move_fold(s, p, cs.drop_last()), p, cs.last())
    }
}

/// One channel check for a player entering the range of objects: when the
/// player is in range and not yet subscribed, the player is subscribed and
/// the channel is entered. With `always`, a player in range is subscribed
/// (again) and the channel entered whether or not already subscribed.
pub open spec fn enter_step(
    s: (Map<u8, Set<u128>>, Seq<u8>, int),
    p: PlayerId,
    c: (u8, bool),
    always: bool,
) -> (Map<u8, Set<u128>>, Seq<u8>, int) {
    let subbed = s.0[c.0].contains(p.0);
    if c.1 && (always || !subbed) {
        (s.0.insert(c.0, s.0[c.0].insert(p.0)), s.1.push(c.0), if subbed { s.2 } else { s.2 + 1 })
    } else {
        s
    }
}

/// The channel checks for a player entering the range of objects, in order.
pub open spec fn enter_fold(
    s: (Map<u8, Set<u128>>, Seq<u8>, int),
    p: PlayerId,
    cs: Seq<(u8, bool)>,
    always: bool,
) -> (Map<u8, Set<u128>>, Seq<u8>, int)
    decreases cs.len(),
{
    if cs.len() == 0 {
        s
    } else {
        enter_step(enter_fold(s, p, cs.drop_last(), always), p, cs.last(), always)
    }
}

/// One channel of a resubscription: a player who should be subscribed is,
/// and one who should not is not.
pub open spec fn resync_step(s: (Map<u8, Set<u128>>, int), p: PlayerId, c: (u8, bool)) -> (Map<u8, Set<u128>>, int) {
    let subbed = s.0[c.0].contains(p.0);
    if c.1 && !subbed {
        (s.0.insert(c.0, s.0[c.0].insert(p.0)), s.1 + 1)
    } else if !c.1 && subbed {
        (s.0.insert(c.0, s.0[c.0].remove(p.0)), if s.1 > 0 { s.1 - 1 } else { 0 })
    } else {
        s
    }
}

/// The channels of a resubscription, in order.
pub open spec fn resync_fold(s: (Map<u8, Set<u128>>, int), p: PlayerId, cs: Seq<(u8, bool)>) -> (Map<u8, Set<u128>>, int)
    decreases cs.len(),
{
    if cs.len() == 0 {
        s
    } else {
        resync_step(resync_fold(s, p, cs.drop_last()), p, cs.last())
    }
}

/// The subscriptions and update flags of one object instance.
pub struct ObjectSubscriptions {
    subscribers: HashMap<u8, HashSet<u128>>,
    needs_update: HashMap<u8, bool>,
    last_updates: HashMap<u8, tokio::time::Instant>,
    stats: ObjectStats,
}

impl ObjectSubscriptions {
    /// The subscribers of each channel, by their UUID values (a channel no
    /// one subscribed to has none).
    pub closed spec fn channels(&self) -> Map<u8, Set<u128>> {
        Map::new(
            |c: u8| true,
            |c: u8|
                if self.subscribers@.contains_key(c) {
                    self.subscribers@[c]@
                } else {
                    Set::empty()
                },
        )
    }

    /// The channels marked as needing an update.
    pub closed spec fn pending(&self) -> Map<u8, bool> {
        self.needs_update@
    }

    /// The statistics.
    pub closed spec fn statistics(&self) -> ObjectStats {
        self.stats
    }

    /// No subscriptions, no update flags, zero statistics.
    pub fn new() -> (r: Self)
        ensures
            r.channels() == Map::new(|c: u8| true, |c: u8| Set::<u128>::empty()),
            r.pending() == Map::<u8, bool>::empty(),
            r.statistics() == (ObjectStats { updates_sent: 0, bytes_transmitted: 0, total_subscribers: 0, zone_transitions: 0 }),
    {
        let r = ObjectSubscriptions {
            subscribers: HashMap::new(),
            needs_update: HashMap::new(),
            last_updates: HashMap::new(),
            stats: ObjectStats { updates_sent: 0, bytes_transmitted: 0, total_subscribers: 0, zone_transitions: 0 },
        };
        assert(r.channels() =~= Map::new(|c: u8| true, |c: u8| Set::<u128>::empty()));
        r
    }

    /// The statistics.
    pub fn get_stats(&self) -> (r: ObjectStats)
        ensures
            r == self.statistics(),
    {
        self.stats
    }

    /// Whether a player is subscribed to a channel.
    pub fn is_subscribed(&self, channel: u8, player_id: PlayerId) -> (r: bool)
        ensures
            r == self.channels()[channel].contains(player_id.0),
    {
        match self.subscribers.get(&channel) {
            Some(set) => set.contains(&player_id.0),
            None => false,
        }
    }

    /// The number of subscribers of a channel.
    pub fn get_subscriber_count(&self, channel: u8) -> (r: usize)
        ensures
            r == self.channels()[channel].len(),
    {
        match self.subscribers.get(&channel) {
            Some(set) => set.len(),
            None => 0,
        }
    }

    /// The subscribers of a channel, in no particular order.
    pub fn get_subscribers(&self, channel: u8) -> (r: Vec<PlayerId>)
        ensures
            r@.map_values(|p: PlayerId| p.0).to_set() == self.channels()[channel],
            r@.len() == self.channels()[channel].len(),
    {
        let mut out: Vec<PlayerId> = Vec::new();
        match self.subscribers.get(&channel) {
            Some(set) => {
                let ghost all = spec_hash_keys_iter(set).remaining();
                proof {
                    axiom_spec_hash_keys_iter(set);
                }
                for x in it: set.iter()
                    invariant
                        it.seq() == all,
                        all.unref().to_set() == set@,
                        out@.len() == it.index(),
                        forall|j: int| 0 <= j < out@.len() ==> (#[trigger] out@[j]).0 == *all[j],
                {
                    out.push(PlayerId(*x));
                }
                proof {
                    let ids = out@.map_values(|p: PlayerId| p.0);
                    assert(ids.len() == all.len());
                    assert(ids =~= all.unref());
                }
            },
            None => {
                assert(out@.map_values(|p: PlayerId| p.0).to_set() =~= Set::<u128>::empty());
            },
        }
        out
    }

    /// Subscribes a player to a channel; returns whether the player was not
    /// subscribed before, in which case the subscription count grows by one.
    pub fn add_subscriber(&mut self, channel: u8, player_id: PlayerId) -> (added: bool)
        requires
            old(self).statistics().total_subscribers < usize::MAX,
        ensures
            added == !old(self).channels()[channel].contains(player_id.0),
            final(self).channels() == old(self).channels().insert(
                channel,
                old(self).channels()[channel].insert(player_id.0),
            ),
            final(self).statistics() == (ObjectStats {
                total_subscribers: (old(self).statistics().total_subscribers + if added { 1int } else { 0 }) as usize,
                ..old(self).statistics()
            }),
            final(self).pending() == old(self).pending(),
    {
        let ghost before = self.channels();
        let mut set = match self.subscribers.remove(&channel) {
            Some(s) => s,
            None => HashSet::new(),
        };
        let added = set.insert(player_id.0);
        self.subscribers.insert(channel, set);
        if added {
            self.stats.total_subscribers = self.stats.total_subscribers + 1;
        }
        assert(self.channels() =~= before.insert(channel, before[channel].insert(player_id.0)));
        added
    }

    /// Unsubscribes a player from a channel; returns whether the player was
    /// subscribed, in which case the subscription count shrinks by one (not
    /// below zero).
    pub fn remove_subscriber(&mut self, channel: u8, player_id: PlayerId) -> (removed: bool)
        ensures
            removed == old(self).channels()[channel].contains(player_id.0),
            final(self).channels() == old(self).channels().insert(
                channel,
                old(self).channels()[channel].remove(player_id.0),
            ),
            final(self).statistics() == (ObjectStats {
                total_subscribers: if removed && old(self).statistics().total_subscribers > 0 {
                    (old(self).statistics().total_subscribers - 1) as usize
                } else {
                    old(self).statistics().total_subscribers
                },
                ..old(self).statistics()
            }),
            final(self).pending() == old(self).pending(),
    {
        let ghost before = self.channels();
        match self.subscribers.remove(&channel) {
            Some(s) => {
                let mut set = s;
                let removed = set.remove(&player_id.0);
                self.subscribers.insert(channel, set);
                if removed {
                    self.stats.total_subscribers = self.stats.total_subscribers.saturating_sub(1);
                }
                assert(self.channels() =~= before.insert(channel, before[channel].remove(player_id.0)));
                removed
            },
            None => {
                assert(self.subscribers@ =~= old(self).subscribers@);
                assert(before[channel].remove(player_id.0) =~= before[channel]);
                assert(self.channels() =~= before.insert(channel, before[channel].remove(player_id.0)));
                false
            },
        }
    }

    /// Marks a channel as needing an update.
    pub fn mark_needs_update(&mut self, channel: u8)
        ensures
            final(self).pending() == old(self).pending().insert(channel, true),
            final(self).channels() == old(self).channels(),
            final(self).statistics() == old(self).statistics(),
    {
        self.needs_update.insert(channel, true);
    }

    /// Marks each of the given channels (the layers of a moved object) as
    /// needing an update.
    pub fn mark_channels_need_update(&mut self, channels: &Vec<u8>)
        ensures
            forall|c: u8| #[trigger] final(self).pending().contains_key(c) <==> (old(self).pending().contains_key(c)
                || channels@.contains(c)),
            forall|c: u8| #[trigger] final(self).pending().contains_key(c) ==> final(self).pending()[c] == (
            channels@.contains(c) || old(self).pending()[c]),
            final(self).channels() == old(self).channels(),
            final(self).statistics() == old(self).statistics(),
    {
        let mut i: usize = 0;
        while i < channels.len()
            invariant
                i <= channels@.len(),
                self.channels() == old(self).channels(),
                self.statistics() == old(self).statistics(),
                forall|c: u8| #[trigger] self.pending().contains_key(c) <==> (old(self).pending().contains_key(c)
                    || channels@.take(i as int).contains(c)),
                forall|c: u8| #[trigger] self.pending().contains_key(c) ==> self.pending()[c] == (channels@.take(
                    i as int,
                ).contains(c) || old(self).pending()[c]),
            decreases channels@.len() - i,
        {
            let c = channels[i];
            self.mark_needs_update(c);
            proof {
                let t = channels@.take(i + 1);
                assert(t =~= channels@.take(i as int).push(c));
                assert forall|x: u8| t.contains(x) <==> (channels@.take(i as int).contains(x) || x == c) by {
                    if t.contains(x) {
                        let k = choose|k: int| 0 <= k < t.len() && t[k] == x;
                        if k < i {
                            assert(channels@.take(i as int)[k] == x);
                        }
                    }
                    if x == c {
                        assert(t[i as int] == c);
                    }
                    if channels@.take(i as int).contains(x) {
                        let k = choose|k: int| 0 <= k < i && channels@.take(i as int)[k] == x;
                        assert(t[k] == x);
                    }
                }
            }
            i = i + 1;
        }
        assert(channels@.take(channels@.len() as int) =~= channels@);
    }

    /// Whether a channel needs an update (no mark means no).
    pub fn needs_channel_update(&self, channel: u8) -> (r: bool)
        ensures
            r == (self.pending().contains_key(channel) && self.pending()[channel]),
    {
        match self.needs_update.get(&channel) {
            Some(b) => *b,
            None => false,
        }
    }

    /// Marks a channel as updated now and counts the update sent.
    pub fn mark_updated(&mut self, channel: u8)
        requires
            old(self).statistics().updates_sent < u64::MAX,
        ensures
            final(self).pending() == old(self).pending().insert(channel, false),
            final(self).channels() == old(self).channels(),
            final(self).statistics() == (ObjectStats {
                updates_sent: (old(self).statistics().updates_sent + 1) as u64,
                ..old(self).statistics()
            }),
    {
        self.needs_update.insert(channel, false);
        self.last_updates.insert(channel, instant_now());
        self.stats.updates_sent = self.stats.updates_sent + 1;
    }

    /// The subscription changes of one player when the object moves: applies
    /// the checks of the object's layers, by increasing radius, and returns
    /// the zone events (the player, the channel, and whether it was an
    /// entry).
    pub fn apply_object_move(&mut self, player_id: PlayerId, checks: &Vec<LayerCheck>) -> (events: Vec<(PlayerId, u8, bool)>)
        requires
            old(self).statistics().total_subscribers + checks@.len() <= usize::MAX,
            old(self).statistics().zone_transitions + checks@.len() <= u64::MAX,
        ensures
            ({
                let s = move_fold(
                    MoveState {
                        channels: old(self).channels(),
                        inner: false,
                        events: Seq::empty(),
                        transitions: old(self).statistics().zone_transitions as int,
                        total: old(self).statistics().total_subscribers as int,
                    },
                    player_id,
                    checks@,
                );
                &&& final(self).channels() == s.channels
                &&& events@ == s.events
                &&& final(self).statistics().zone_transitions == s.transitions
                &&& final(self).statistics().total_subscribers == s.total
            }),
            final(self).statistics().updates_sent == old(self).statistics().updates_sent,
            final(self).statistics().bytes_transmitted == old(self).statistics().bytes_transmitted,
            final(self).pending() == old(self).pending(),
    {
        let ghost init = MoveState {
            channels: self.channels(),
            inner: false,
            events: Seq::empty(),
            transitions: self.stats.zone_transitions as int,
            total: self.stats.total_subscribers as int,
        };
        let mut events: Vec<(PlayerId, u8, bool)> = Vec::new();
        let mut inner = false;
        let mut i: usize = 0;
        while i < checks.len()
            invariant
                i <= checks@.len(),
                ({
                    let s = move_fold(init, player_id, checks@.take(i as int));
                    &&& self.channels() == s.channels
                    &&& inner == s.inner
                    &&& events@ == s.events
                    &&& self.stats.zone_transitions == s.transitions
                    &&& self.stats.total_subscribers == s.total
                }),
                self.stats.zone_transitions <= old(self).statistics().zone_transitions + i,
                self.stats.total_subscribers <= old(self).statistics().total_subscribers + i,
                old(self).statistics().total_subscribers + checks@.len() <= usize::MAX,
                old(self).statistics().zone_transitions + checks@.len() <= u64::MAX,
                self.stats.updates_sent == old(self).statistics().updates_sent,
                self.stats.bytes_transmitted == old(self).statistics().bytes_transmitted,
                self.pending() == old(self).pending(),
            decreases checks@.len() - i,
        {
            let c = checks[i];
            proof {
                assert(checks@.take(i + 1).drop_last() =~= checks@.take(i as int));
                assert(checks@.take(i + 1).last() == c);
            }
            let subbed = self.is_subscribed(c.channel, player_id);
            if !(inner && c.beyond_smallest && subbed) {
                if c.is_in_zone && c.smallest {
                    inner = true;
                }
                if !c.was_in_zone && c.is_in_zone && !subbed {
                    self.add_subscriber(c.channel, player_id);
                    self.stats.zone_transitions = self.stats.zone_transitions + 1;
                    events.push((player_id, c.channel, true));
                } else if c.was_in_zone && !c.is_in_zone && subbed {
                    self.remove_subscriber(c.channel, player_id);
                    self.stats.zone_transitions = self.stats.zone_transitions + 1;
                    events.push((player_id, c.channel, false));
                }
            }
            i = i + 1;
        }
        assert(checks@.take(checks@.len() as int) =~= checks@);
        events
    }

    /// Subscribes a player to the channels whose zones the player is in
    /// (`(channel, in zone)` per layer, in order); with `always`, a player
    /// in a zone is subscribed and the channel reported even when already
    /// subscribed, otherwise only the new subscriptions are reported.
    /// Returns the channels entered.
    pub fn enter_zones(&mut self, player_id: PlayerId, checks: &Vec<(u8, bool)>, always: bool) -> (entered: Vec<u8>)
        requires
            old(self).statistics().total_subscribers + checks@.len() <= usize::MAX,
        ensures
            ({
                let s = enter_fold(
                    (old(self).channels(), Seq::empty(), old(self).statistics().total_subscribers as int),
                    player_id,
                    checks@,
                    always,
                );
                &&& final(self).channels() == s.0
                &&& entered@ == s.1
                &&& final(self).statistics().total_subscribers == s.2
            }),
            final(self).statistics().updates_sent == old(self).statistics().updates_sent,
            final(self).statistics().bytes_transmitted == old(self).statistics().bytes_transmitted,
            final(self).statistics().zone_transitions == old(self).statistics().zone_transitions,
            final(self).pending() == old(self).pending(),
    {
        let ghost init = (self.channels(), Seq::<u8>::empty(), self.stats.total_subscribers as int);
        let mut entered: Vec<u8> = Vec::new();
        let mut i: usize = 0;
        while i < checks.len()
            invariant
                i <= checks@.len(),
                ({
                    let s = enter_fold(init, player_id, checks@.take(i as int), always);
                    &&& self.channels() == s.0
                    &&& entered@ == s.1
                    &&& self.stats.total_subscribers == s.2
                }),
                self.stats.total_subscribers <= old(self).statistics().total_subscribers + i,
                old(self).statistics().total_subscribers + checks@.len() <= usize::MAX,
                self.stats.updates_sent == old(self).statistics().updates_sent,
                self.stats.bytes_transmitted == old(self).statistics().bytes_transmitted,
                self.stats.zone_transitions == old(self).statistics().zone_transitions,
                self.pending() == old(self).pending(),
            decreases checks@.len() - i,
        {
            let c = checks[i];
            proof {
                assert(checks@.take(i + 1).drop_last() =~= checks@.take(i as int));
                assert(checks@.take(i + 1).last() == c);
            }
            if c.1 {
                if always || !self.is_subscribed(c.0, player_id) {
                    self.add_subscriber(c.0, player_id);
                    entered.push(c.0);
                }
            }
            i = i + 1;
        }
        assert(checks@.take(checks@.len() as int) =~= checks@);
        entered
    }

    /// Brings a player's subscriptions in line with the zones the player
    /// should be in (`(channel, should be subscribed)`, in order).
    pub fn resync_player(&mut self, player_id: PlayerId, checks: &Vec<(u8, bool)>)
        requires
            old(self).statistics().total_subscribers + checks@.len() <= usize::MAX,
        ensures
            ({
                let s = resync_fold((old(self).channels(), old(self).statistics().total_subscribers as int), player_id, checks@);
                &&& final(self).channels() == s.0
                &&& final(self).statistics().total_subscribers == s.1
            }),
            final(self).statistics().updates_sent == old(self).statistics().updates_sent,
            final(self).statistics().bytes_transmitted == old(self).statistics().bytes_transmitted,
            final(self).statistics().zone_transitions == old(self).statistics().zone_transitions,
            final(self).pending() == old(self).pending(),
    {
        let ghost init = (self.channels(), self.stats.total_subscribers as int);
        let mut i: usize = 0;
        while i < checks.len()
            invariant
                i <= checks@.len(),
                ({
                    let s = resync_fold(init, player_id, checks@.take(i as int));
                    &&& self.channels() == s.0
                    &&& self.stats.total_subscribers == s.1
                }),
                self.stats.total_subscribers <= old(self).statistics().total_subscribers + i,
                old(self).statistics().total_subscribers + checks@.len() <= usize::MAX,
                self.stats.updates_sent == old(self).statistics().updates_sent,
                self.stats.bytes_transmitted == old(self).statistics().bytes_transmitted,
                self.stats.zone_transitions == old(self).statistics().zone_transitions,
                self.pending() == old(self).pending(),
            decreases checks@.len() - i,
        {
            let c = checks[i];
            proof {
                assert(checks@.take(i + 1).drop_last() =~= checks@.take(i as int));
                assert(checks@.take(i + 1).last() == c);
            }
            let subbed = self.is_subscribed(c.0, player_id);
            if c.1 && !subbed {
                self.add_subscriber(c.0, player_id);
            } else if !c.1 && subbed {
                self.remove_subscriber(c.0, player_id);
            }
            i = i + 1;
        }
        assert(checks@.take(checks@.len() as int) =~= checks@);
    }

    /// Removes a player from channels 0 to 3.
    pub fn remove_player(&mut self, player_id: PlayerId)
        ensures
            forall|c: u8| c < 4 ==> !#[trigger] final(self).channels()[c].contains(player_id.0),
            forall|c: u8| c < 4 ==> #[trigger] final(self).channels()[c] == old(self).channels()[c].remove(player_id.0),
            forall|c: u8| c >= 4 ==> #[trigger] final(self).channels()[c] == old(self).channels()[c],
            final(self).pending() == old(self).pending(),
    {
        let mut c: u8 = 0;
        while c < 4
            invariant
                c <= 4,
                forall|x: u8| x < c ==> #[trigger] self.channels()[x] == old(self).channels()[x].remove(player_id.0),
                forall|x: u8| x >= c ==> #[trigger] self.channels()[x] == old(self).channels()[x],
                self.pending() == old(self).pending(),
            decreases 4 - c,
        {
            self.remove_subscriber(c, player_id);
            c = c + 1;
        }
    }
}

/// Zone changes of a moving player against every layer of every object:
/// `(object, channel, was inside, is inside)`; returns the entries and the
/// exits, each in order.
pub open spec fn zone_entries(cs: Seq<(GorcObjectId, u8, bool, bool)>) -> Seq<(GorcObjectId, u8)>
    decreases cs.len(),
{
    if cs.len() == 0 {
        Seq::empty()
    } else {
        let c = cs.last();
        let rest = zone_entries(cs.drop_last());
        if !c.2 && c.3 { rest.push((c.0, c.1)) } else { rest }
    }
}

/// The exits among zone changes, in order.
pub open spec fn zone_exits(cs: Seq<(GorcObjectId, u8, bool, bool)>) -> Seq<(GorcObjectId, u8)>
    decreases cs.len(),
{
    if cs.len() == 0 {
        Seq::empty()
    } else {
        let c = cs.last();
        let rest = zone_exits(cs.drop_last());
        if c.2 && !c.3 { rest.push((c.0, c.1)) } else { rest }
    }
}

/// Splits the zone checks of a moving player into entries (was outside, is
/// inside) and exits (was inside, is outside). A player seen for the first
/// time was inside no zone.
pub fn player_zone_changes(checks: &Vec<(GorcObjectId, u8, bool, bool)>) -> (r: (Vec<(GorcObjectId, u8)>, Vec<(GorcObjectId, u8)>))
    ensures
        r.0@ == zone_entries(checks@),
        r.1@ == zone_exits(checks@),
{
    let mut entries: Vec<(GorcObjectId, u8)> = Vec::new();
    let mut exits: Vec<(GorcObjectId, u8)> = Vec::new();
    let mut i: usize = 0;
    while i < checks.len()
        invariant
            i <= checks@.len(),
            entries@ == zone_entries(checks@.take(i as int)),
            exits@ == zone_exits(checks@.take(i as int)),
        decreases checks@.len() - i,
    {
        let c = checks[i];
        proof {
            assert(checks@.take(i + 1).drop_last() =~= checks@.take(i as int));
            assert(checks@.take(i + 1).last() == c);
        }
        if !c.2 && c.3 {
            entries.push((c.0, c.1));
        } else if c.2 && !c.3 {
            exits.push((c.0, c.1));
        }
        i = i + 1;
    }
    assert(checks@.take(checks@.len() as int) =~= checks@);
    (entries, exits)
}

/// A move that leaves every zone flag as it was (the player stands where its
/// last move put it) neither enters nor leaves any zone.
pub proof fn law_unchanged_zones_no_changes(checks: Seq<(GorcObjectId, u8, bool, bool)>)
    requires
        forall|i: int| 0 <= i < checks.len() ==> (#[trigger] checks[i]).2 == checks[i].3,
    ensures
        zone_entries(checks) == Seq::<(GorcObjectId, u8)>::empty(),
        zone_exits(checks) == Seq::<(GorcObjectId, u8)>::empty(),
    decreases checks.len(),
{
    if checks.len() > 0 {
        let rest = checks.drop_last();
        assert forall|i: int| 0 <= i < rest.len() implies (#[trigger] rest[i]).2 == rest[i].3 by {
            assert(rest[i] == checks[i]);
        }
        law_unchanged_zones_no_changes(rest);
        assert(checks.last() == checks[checks.len() - 1]);
    }
}

/// An object move that leaves every zone flag of a player as it was changes
/// none of the player's subscriptions and raises no zone event.
pub proof fn law_unchanged_zones_no_events(s: MoveState, p: PlayerId, cs: Seq<LayerCheck>)
    requires
        forall|i: int| 0 <= i < cs.len() ==> (#[trigger] cs[i]).was_in_zone == cs[i].is_in_zone,
    ensures
        move_fold(s, p, cs).channels == s.channels,
        move_fold(s, p, cs).events == s.events,
        move_fold(s, p, cs).transitions == s.transitions,
        move_fold(s, p, cs).total == s.total,
    decreases cs.len(),
{
    if cs.len() > 0 {
        let rest = cs.drop_last();
        assert forall|i: int| 0 <= i < rest.len() implies (#[trigger] rest[i]).was_in_zone == rest[i].is_in_zone by {
            assert(rest[i] == cs[i]);
        }
        law_unchanged_zones_no_events(s, p, rest);
        assert(cs.last() == cs[cs.len() - 1]);
    }
}

/// The checks of an object move leave the player outside the object's
/// smallest zone, and each layer has its own channel.
pub open spec fn outside_smallest_zone(cs: Seq<LayerCheck>) -> bool {
    &&& forall|j: int| 0 <= j < cs.len() && (#[trigger] cs[j]).smallest ==> !cs[j].is_in_zone
    &&& forall|a: int, b: int| 0 <= a < b < cs.len() ==> cs[a].channel != cs[b].channel
}

/// What an object move does for a player outside the smallest zone: no
/// larger zone is skipped, channels not checked are untouched, earlier
/// events stay, and every checked zone the player was subscribed to and
/// left is unsubscribed with an exit event.
proof fn lemma_move_outside_smallest(s: MoveState, p: PlayerId, cs: Seq<LayerCheck>)
    requires
        !s.inner,
        outside_smallest_zone(cs),
    ensures
        !move_fold(s, p, cs).inner,
        forall|ch: u8| (forall|j: int| 0 <= j < cs.len() ==> (#[trigger] cs[j]).channel != ch)
            ==> #[trigger] move_fold(s, p, cs).channels[ch] == s.channels[ch],
        move_fold(s, p, cs).events.len() >= s.events.len(),
        forall|k: int| 0 <= k < s.events.len() ==> #[trigger] move_fold(s, p, cs).events[k] == s.events[k],
        forall|i: int| 0 <= i < cs.len() && (#[trigger] cs[i]).was_in_zone && !cs[i].is_in_zone
            && s.channels[cs[i].channel].contains(p.0) ==> {
            &&& !move_fold(s, p, cs).channels[cs[i].channel].contains(p.0)
            &&& move_fold(s, p, cs).events.contains((p, cs[i].channel, false))
        },
    decreases cs.len(),
{
    if cs.len() > 0 {
        let rest = cs.drop_last();
        let c = cs.last();
        let n = cs.len() - 1;
        assert(c == cs[n]);
        assert(outside_smallest_zone(rest)) by {
            assert forall|j: int| 0 <= j < rest.len() && (#[trigger] rest[j]).smallest implies !rest[j].is_in_zone by {
                assert(rest[j] == cs[j]);
            }
            assert forall|a: int, b: int| 0 <= a < b < rest.len() implies rest[a].channel != rest[b].channel by {
                assert(rest[a] == cs[a]);
                assert(rest[b] == cs[b]);
            }
        }
        lemma_move_outside_smallest(s, p, rest);
        let t = move_fold(s, p, rest);
        let u = move_fold(s, p, cs);
        assert(u == move_step(t, p, c));
        assert forall|j: int| 0 <= j < rest.len() implies (#[trigger] rest[j]).channel != c.channel by {
            assert(rest[j] == cs[j]);
        }
        assert(t.channels[c.channel] == s.channels[c.channel]);
        assert forall|ch: u8| ch != c.channel implies #[trigger] u.channels[ch] == t.channels[ch] by {}
        assert forall|ch: u8| (forall|j: int| 0 <= j < cs.len() ==> (#[trigger] cs[j]).channel != ch)
            implies #[trigger] u.channels[ch] == s.channels[ch] by {
            assert(cs[n].channel != ch);
            assert forall|j: int| 0 <= j < rest.len() implies (#[trigger] rest[j]).channel != ch by {
                assert(rest[j] == cs[j]);
            }
        }
        assert forall|k: int| 0 <= k < s.events.len() implies #[trigger] u.events[k] == s.events[k] by {
            assert(t.events[k] == s.events[k]);
        }
        assert forall|i: int| 0 <= i < cs.len() && (#[trigger] cs[i]).was_in_zone && !cs[i].is_in_zone
            && s.channels[cs[i].channel].contains(p.0) implies {
            &&& !u.channels[cs[i].channel].contains(p.0)
            &&& u.events.contains((p, cs[i].channel, false))
        } by {
            if i == n {
                assert(u.events[u.events.len() - 1] == (p, c.channel, false));
            } else {
                assert(rest[i] == cs[i]);
                assert(t.events.contains((p, cs[i].channel, false)));
                let k = choose|k: int| 0 <= k < t.events.len() && t.events[k] == (p, cs[i].channel, false);
                assert(u.events[k] == t.events[k]);
                assert(cs[i].channel != c.channel);
            }
        }
    }
}

/// A larger zone is skipped only for a player inside the smallest zone: when
/// an object moves and the player is outside its smallest zone (each layer
/// on its own channel), every zone the player was subscribed to and left is
/// unsubscribed, with an exit event.
pub proof fn law_leaving_zones_outside_smallest(s: MoveState, p: PlayerId, cs: Seq<LayerCheck>, i: int)
    requires
        !s.inner,
        outside_smallest_zone(cs),
        0 <= i < cs.len(),
        cs[i].was_in_zone,
        !cs[i].is_in_zone,
        s.channels[cs[i].channel].contains(p.0),
    ensures
        !move_fold(s, p, cs).channels[cs[i].channel].contains(p.0),
        move_fold(s, p, cs).events.contains((p, cs[i].channel, false)),
{
    lemma_move_outside_smallest(s, p, cs);
}

/// A player's subscriptions are recalculated when the player is new or
/// moved farther than the movement threshold.
pub fn should_recalculate_subscriptions(first_position: bool, moved_beyond_threshold: bool) -> (r: bool)
    ensures
        r == (first_position || moved_beyond_threshold),
{
    first_position || moved_beyond_threshold
}

/// After a zone check that is not skipped, a subscription follows the
/// zone: a player inside is subscribed and one outside is not, unless the
/// zone flag did not change and the subscription already disagreed with
/// it (such a disagreement is left as it was).
pub proof fn law_subscription_follows_zone(s: MoveState, p: PlayerId, c: LayerCheck)
    requires
        !(s.inner && c.beyond_smallest && s.channels[c.channel].contains(p.0)),
        !(c.was_in_zone == c.is_in_zone && s.channels[c.channel].contains(p.0) != c.is_in_zone),
    ensures
        move_step(s, p, c).channels[c.channel].contains(p.0) == c.is_in_zone,
{
}

/// A zone event is raised exactly when a check changes the subscription,
/// and it says which way.
pub proof fn law_zone_event_iff_change(s: MoveState, p: PlayerId, c: LayerCheck)
    ensures
        ({
            let t = move_step(s, p, c);
            let before = s.channels[c.channel].contains(p.0);
            let after = t.channels[c.channel].contains(p.0);
            &&& (t.events.len() == s.events.len() + 1) == (before != after)
            &&& t.events.len() == s.events.len() || t.events.len() == s.events.len() + 1
            &&& t.events.len() == s.events.len() + 1 ==> t.events.last() == (p, c.channel, after)
        }),
{
}

} // verus!
