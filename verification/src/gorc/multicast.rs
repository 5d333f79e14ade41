//! Multicast groups: members, channels, and the manager that indexes groups
//! by channel and players by group.

use crate::gorc::channels::ReplicationPriority;
use crate::types::PlayerId;
use crate::utils::instant_now;
use std::collections::{HashMap, HashSet};
use vstd::prelude::*;
use vstd::std_specs::hash::{axiom_spec_hash_keys_iter, axiom_spec_keys_iter, spec_hash_keys_iter, spec_keys_iter};
use vstd::std_specs::iter::IteratorSpec;

verus! {

broadcast use vstd::std_specs::hash::group_hash_axioms;

/// Unique identifier for multicast groups.
#[derive(Debug, Clone, Copy, PartialEq, Eq, Hash, Structural)]
pub struct MulticastGroupId(pub u64);

/// The source of multicast group identifiers: numbers counted up from 1,
/// wrapping around after the largest.
pub struct MulticastGroupIds {
    next: u64,
}

impl MulticastGroupIds {
    /// The number the next identifier gets.
    pub closed spec fn upcoming(&self) -> u64 {
        self.next
    }

    /// A source whose first identifier is 1.
    pub fn new() -> (r: Self)
        ensures
            r.upcoming() == 1,
    {
        MulticastGroupIds { next: 1 }
    }
}

impl MulticastGroupId {
    /// Takes the next identifier.
    pub fn new(ids: &mut MulticastGroupIds) -> (r: Self)
        ensures
            r.0 == old(ids).upcoming(),
            final(ids).upcoming() == (if old(ids).upcoming() == u64::MAX { 0 } else { old(ids).upcoming() + 1 }),
    {
        let id = ids.next;
        ids.next = ids.next.wrapping_add(1);
        MulticastGroupId(id)
    }
}

/// Identifiers taken one after the other differ (until the counter wraps
/// around, after 2^64 of them).
pub proof fn law_fresh_group_ids(first: u64, second_upcoming: u64)
    requires
        second_upcoming == (if first == u64::MAX { 0 } else { first + 1 }),
    ensures
        second_upcoming != first,
{
}

/// Level of detail of multicast rooms.
#[derive(Debug, Clone, Copy, PartialEq, Eq, Hash, Structural)]
pub enum LodLevel {
    /// Highest detail - full replication
    Ultra,
    /// High detail - most properties replicated
    High,
    /// Medium detail - important properties only
    Medium,
    /// Low detail - basic properties only
    Low,
    /// Minimal detail - essential properties only
    Minimal,
}

/// The replication priority of a level of detail.
pub open spec fn lod_priority(l: LodLevel) -> ReplicationPriority {
    match l {
        LodLevel::Ultra => ReplicationPriority::Critical,
        LodLevel::High => ReplicationPriority::High,
        LodLevel::Medium => ReplicationPriority::Normal,
        LodLevel::Low => ReplicationPriority::Low,
        LodLevel::Minimal => ReplicationPriority::Low,
    }
}

impl LodLevel {
    /// Converts the level of detail to a replication priority.
    pub fn to_priority(&self) -> (r: ReplicationPriority)
        ensures
            r == lod_priority(*self),
    {
        match self {
            LodLevel::Ultra => ReplicationPriority::Critical,
            LodLevel::High => ReplicationPriority::High,
            LodLevel::Medium => ReplicationPriority::Normal,
            LodLevel::Low => ReplicationPriority::Low,
            LodLevel::Minimal => ReplicationPriority::Low,
        }
    }

    /// The next coarser level (the coarsest stays).
    pub fn coarser(&self) -> (r: LodLevel)
        ensures
            r == match *self {
                LodLevel::Ultra => LodLevel::High,
                LodLevel::High => LodLevel::Medium,
                LodLevel::Medium => LodLevel::Low,
                LodLevel::Low => LodLevel::Minimal,
                LodLevel::Minimal => LodLevel::Minimal,
            },
    {
        match self {
            LodLevel::Ultra => LodLevel::High,
            LodLevel::High => LodLevel::Medium,
            LodLevel::Medium => LodLevel::Low,
            LodLevel::Low => LodLevel::Minimal,
            LodLevel::Minimal => LodLevel::Minimal,
        }
    }
}

/// Errors of multicast operations.
#[derive(Debug, Clone, Copy, PartialEq, Eq, Structural)]
pub enum MulticastError {
    /// Group not found
    GroupNotFound(MulticastGroupId),
    /// Channel not supported by group
    ChannelNotSupported(u8),
    /// Group is full
    GroupFull,
    /// Player not in group
    PlayerNotInGroup,
}

/// Statistics of a multicast group.
#[derive(Debug, Clone, Copy, PartialEq, Eq, Structural)]
pub struct GroupStats {
    /// Number of messages sent to this group
    pub messages_sent: u64,
    /// Total bytes sent to this group
    pub bytes_sent: u64,
    /// Number of member additions
    pub member_additions: u64,
    /// Number of member removals
    pub member_removals: u64,
}

/// The default largest number of members of a group.
pub const DEFAULT_MAX_MEMBERS: usize = 1000;

/// A multicast group.
#[derive(Debug)]
pub struct MulticastGroup {
    /// Unique identifier for this group
    pub id: MulticastGroupId,
    /// Name of the group
    pub name: String,
    /// Members of this group, by their UUID values
    pub members: HashSet<u128>,
    /// Replication channels this group handles
    pub channels: HashSet<u8>,
    /// Priority level for this group
    pub priority: ReplicationPriority,
    /// Maximum number of members
    pub max_members: usize,
    /// Creation time
    pub created_at: tokio::time::Instant,
    /// Time of the last change or broadcast
    pub last_update: Option<tokio::time::Instant>,
    /// Group statistics
    pub stats: GroupStats,
}

impl MulticastGroup {
    /// The members, by their UUID values.
    pub open spec fn member_set(&self) -> Set<u128> {
        self.members@
    }

    /// The channels the group handles.
    pub open spec fn channel_set(&self) -> Set<u8> {
        self.channels@
    }

    /// The statistics.
    pub open spec fn statistics(&self) -> GroupStats {
        self.stats
    }

    /// A group with no members, handling the given channels, with room for
    /// the default number of members.
    pub fn new(id: MulticastGroupId, name: String, channels: HashSet<u8>, priority: ReplicationPriority) -> (r: Self)
        ensures
            r.id == id,
            r.name@ == name@,
            r.member_set() == Set::<u128>::empty(),
            r.channel_set() == channels@,
            r.priority == priority,
            r.max_members == DEFAULT_MAX_MEMBERS,
            r.last_update is None,
            r.statistics() == (GroupStats { messages_sent: 0, bytes_sent: 0, member_additions: 0, member_removals: 0 }),
    {
        MulticastGroup {
            id,
            name,
            members: HashSet::new(),
            channels,
            priority,
            max_members: DEFAULT_MAX_MEMBERS,
            created_at: instant_now(),
            last_update: None,
            stats: GroupStats { messages_sent: 0, bytes_sent: 0, member_additions: 0, member_removals: 0 },
        }
    }

    /// Adds a member while the group is not full; returns whether the
    /// player was added (not full, and not a member yet).
    pub fn add_member(&mut self, player_id: PlayerId) -> (added: bool)
        requires
            old(self).statistics().member_additions < u64::MAX,
        ensures
            added == (old(self).member_set().len() < old(self).max_members && !old(self).member_set().contains(player_id.0)),
            final(self).member_set() == (if old(self).member_set().len() < old(self).max_members {
                old(self).member_set().insert(player_id.0)
            } else {
                old(self).member_set()
            }),
            final(self).statistics() == (GroupStats {
                member_additions: (old(self).statistics().member_additions + if added { 1int } else { 0 }) as u64,
                ..old(self).statistics()
            }),
            final(self).channel_set() == old(self).channel_set(),
            final(self).id == old(self).id,
            final(self).max_members == old(self).max_members,
    {
        if self.members.len() < self.max_members {
            let added = self.members.insert(player_id.0);
            if added {
                self.stats.member_additions = self.stats.member_additions + 1;
                self.last_update = Some(instant_now());
            }
            added
        } else {
            false
        }
    }

    /// Removes a member; returns whether the player was one.
    pub fn remove_member(&mut self, player_id: PlayerId) -> (removed: bool)
        requires
            old(self).statistics().member_removals < u64::MAX,
        ensures
            removed == old(self).member_set().contains(player_id.0),
            final(self).member_set() == old(self).member_set().remove(player_id.0),
            final(self).statistics() == (GroupStats {
                member_removals: (old(self).statistics().member_removals + if removed { 1int } else { 0 }) as u64,
                ..old(self).statistics()
            }),
            final(self).channel_set() == old(self).channel_set(),
            final(self).id == old(self).id,
            final(self).max_members == old(self).max_members,
    {
        let removed = self.members.remove(&player_id.0);
        if removed {
            self.stats.member_removals = self.stats.member_removals + 1;
            self.last_update = Some(instant_now());
        }
        removed
    }

    /// Whether the player is a member.
    pub fn contains_member(&self, player_id: PlayerId) -> (r: bool)
        ensures
            r == self.member_set().contains(player_id.0),
    {
        self.members.contains(&player_id.0)
    }

    /// Whether the group handles the channel.
    pub fn handles_channel(&self, channel: u8) -> (r: bool)
        ensures
            r == self.channel_set().contains(channel),
    {
        self.channels.contains(&channel)
    }

    /// The number of members.
    pub fn member_count(&self) -> (r: usize)
        ensures
            r == self.member_set().len(),
    {
        self.members.len()
    }

    /// Whether the group is full.
    pub fn is_full(&self) -> (r: bool)
        ensures
            r == (self.member_set().len() >= self.max_members),
    {
        self.members.len() >= self.max_members
    }

    /// Whether the group has no members.
    pub fn is_empty(&self) -> (r: bool)
        ensures
            r == (self.member_set().len() == 0),
    {
        self.members.len() == 0
    }

    /// The statistics.
    pub fn get_stats(&self) -> (r: GroupStats)
        ensures
            r == self.statistics(),
    {
        self.stats
    }

    /// Records a message of `bytes_sent` bytes broadcast to the group.
    pub fn record_broadcast(&mut self, bytes_sent: usize)
        requires
            old(self).statistics().messages_sent < u64::MAX,
            old(self).statistics().bytes_sent + bytes_sent <= u64::MAX,
        ensures
            final(self).statistics() == (GroupStats {
                messages_sent: (old(self).statistics().messages_sent + 1) as u64,
                bytes_sent: (old(self).statistics().bytes_sent + bytes_sent) as u64,
                ..old(self).statistics()
            }),
            final(self).member_set() == old(self).member_set(),
            final(self).channel_set() == old(self).channel_set(),
            final(self).id == old(self).id,
            final(self).max_members == old(self).max_members,
    {
        self.stats.messages_sent = self.stats.messages_sent + 1;
        self.stats.bytes_sent = self.stats.bytes_sent + bytes_sent as u64;
        self.last_update = Some(instant_now());
    }
}

/// A group never holds more members than its capacity.
pub proof fn law_group_capacity(before: Set<u128>, max_members: usize, player: u128)
    requires
        before.finite(),
        before.len() <= max_members,
    ensures
        (if before.len() < max_members { before.insert(player) } else { before }).len() <= max_members,
{
    if before.len() < max_members && !before.contains(player) {
        assert(before.insert(player).len() == before.len() + 1);
    } else if before.len() < max_members {
        assert(before.insert(player) =~= before);
    }
}

/// Global multicast statistics.
#[derive(Debug, Clone, Copy, PartialEq, Eq, Structural)]
pub struct MulticastStats {
    /// Total number of multicast groups
    pub total_groups: usize,
    /// Total number of LOD rooms
    pub lod_rooms: usize,
    /// Total number of active subscriptions
    pub total_subscriptions: usize,
    /// Total messages sent via multicast
    pub messages_sent: u64,
    /// Total bytes sent via multicast
    pub bytes_sent: u64,
}

/// The multicast groups, the groups of each channel, and the groups each
/// player belongs to.
pub struct MulticastManager {
    groups: HashMap<u64, MulticastGroup>,
    player_groups: HashMap<u128, HashSet<u64>>,
    channel_groups: HashMap<u8, HashSet<u64>>,
    stats: MulticastStats,
}

/// The members of a set-valued map at a key (none where it has no entry).
pub open spec fn set_at<K, V>(m: Map<K, HashSet<V>>, k: K) -> Set<V> {
    if m.contains_key(k) {
        m[k]@
    } else {
        Set::empty()
    }
}

impl MulticastManager {
    /// The groups, by identifier.
    pub closed spec fn group_map(&self) -> Map<u64, MulticastGroup> {
        self.groups@
    }

    /// The groups of each channel.
    pub closed spec fn channel_index(&self) -> Map<u8, Set<u64>> {
        Map::new(|c: u8| true, |c: u8| set_at(self.channel_groups@, c))
    }

    /// The groups each player belongs to (players with none are absent).
    pub closed spec fn player_index(&self) -> Map<u128, Set<u64>> {
        self.player_groups@.map_values(|s: HashSet<u64>| s@)
    }

    /// The statistics.
    pub closed spec fn statistics(&self) -> MulticastStats {
        self.stats
    }

    /// Each group is filed under its own identifier.
    pub open spec fn wf(&self) -> bool {
        forall|k: u64| #[trigger] self.group_map().contains_key(k) ==> self.group_map()[k].id.0 == k
    }

    /// A manager with no groups.
    pub fn new() -> (r: Self)
        ensures
            r.wf(),
            r.group_map() == Map::<u64, MulticastGroup>::empty(),
            r.channel_index() == Map::new(|c: u8| true, |c: u8| Set::<u64>::empty()),
            r.player_index() == Map::<u128, Set<u64>>::empty(),
            r.statistics() == (MulticastStats { total_groups: 0, lod_rooms: 0, total_subscriptions: 0, messages_sent: 0, bytes_sent: 0 }),
    {
        let r = MulticastManager {
            groups: HashMap::new(),
            player_groups: HashMap::new(),
            channel_groups: HashMap::new(),
            stats: MulticastStats { total_groups: 0, lod_rooms: 0, total_subscriptions: 0, messages_sent: 0, bytes_sent: 0 },
        };
        assert(r.channel_index() =~= Map::new(|c: u8| true, |c: u8| Set::<u64>::empty()));
        assert(r.player_index() =~= Map::<u128, Set<u64>>::empty());
        r
    }

    /// The statistics.
    pub fn get_stats(&self) -> (r: MulticastStats)
        ensures
            r == self.statistics(),
    {
        self.stats
    }

    fn file_under_channel(&mut self, channel: u8, group: u64)
        ensures
            final(self).channel_index() == old(self).channel_index().insert(
                channel,
                old(self).channel_index()[channel].insert(group),
            ),
            final(self).groups@ == old(self).groups@,
            final(self).player_groups@ == old(self).player_groups@,
            final(self).stats == old(self).stats,
    {
        let ghost before = self.channel_index();
        let mut set = match self.channel_groups.remove(&channel) {
            Some(s) => s,
            None => HashSet::new(),
        };
        set.insert(group);
        self.channel_groups.insert(channel, set);
        assert(self.channel_index() =~= before.insert(channel, before[channel].insert(group)));
    }

    /// Creates a group with a fresh identifier, files it under each of its
    /// channels, and counts it.
    pub fn create_group(
        &mut self,
        ids: &mut MulticastGroupIds,
        name: String,
        channels: HashSet<u8>,
        priority: ReplicationPriority,
    ) -> (id: MulticastGroupId)
        requires
            old(self).wf(),
            old(self).statistics().total_groups < usize::MAX,
        ensures
            final(self).wf(),
            id.0 == old(ids).upcoming(),
            final(ids).upcoming() == (if old(ids).upcoming() == u64::MAX { 0 } else { old(ids).upcoming() + 1 }),
            final(self).group_map().contains_key(id.0),
            ({
                let g = final(self).group_map()[id.0];
                &&& g.name@ == name@
                &&& g.member_set() == Set::<u128>::empty()
                &&& g.channel_set() == channels@
                &&& g.priority == priority
                &&& g.max_members == DEFAULT_MAX_MEMBERS
                &&& g.statistics() == (GroupStats { messages_sent: 0, bytes_sent: 0, member_additions: 0, member_removals: 0 })
            }),
            forall|k: u64| k != id.0 ==> #[trigger] final(self).group_map().contains_key(k) == old(self).group_map().contains_key(k)
                && (old(self).group_map().contains_key(k) ==> final(self).group_map()[k] == old(self).group_map()[k]),
            forall|c: u8| #[trigger] final(self).channel_index()[c] == (if channels@.contains(c) {
                old(self).channel_index()[c].insert(id.0)
            } else {
                old(self).channel_index()[c]
            }),
            final(self).player_index() == old(self).player_index(),
            final(self).statistics() == (MulticastStats {
                total_groups: (old(self).statistics().total_groups + 1) as usize,
                ..old(self).statistics()
            }),
    {
        let id = MulticastGroupId::new(ids);
        let ghost chans = channels@;
        let mut listed: Vec<u8> = Vec::new();
        let ghost all = spec_hash_keys_iter(&channels).remaining();
        proof {
            axiom_spec_hash_keys_iter(&channels);
        }
        for c in it: channels.iter()
            invariant
                it.seq() == all,
                all.unref().to_set() == chans,
                listed@.len() == it.index(),
                forall|j: int| 0 <= j < listed@.len() ==> #[trigger] listed@[j] == *all[j],
        {
            listed.push(*c);
        }
        proof {
            assert(listed@.len() == all.len());
            assert(listed@ =~= all.unref());
        }
        let ghost name_view = name@;
        let group = MulticastGroup::new(id, name, channels, priority);
        self.groups.insert(id.0, group);
        let ghost g_new = self.groups@[id.0];
        let ghost before = self.channel_index();
        assert(before =~= old(self).channel_index());
        let mut i: usize = 0;
        while i < listed.len()
            invariant
                i <= listed@.len(),
                listed@.to_set() == chans,
                before == old(self).channel_index(),
                forall|c: u8| #[trigger] self.channel_index()[c] == (if listed@.take(i as int).contains(c) {
                    before[c].insert(id.0)
                } else {
                    before[c]
                }),
                self.groups@ == old(self).groups@.insert(id.0, g_new),
                g_new.id == id,
                g_new.name@ == name_view,
                g_new.member_set() == Set::<u128>::empty(),
                g_new.channel_set() == chans,
                g_new.priority == priority,
                g_new.max_members == DEFAULT_MAX_MEMBERS,
                self.player_groups@ == old(self).player_groups@,
                self.stats == old(self).stats,
            decreases listed@.len() - i,
        {
            let c = listed[i];
            self.file_under_channel(c, id.0);
            proof {
                let t = listed@.take(i + 1);
                assert(t =~= listed@.take(i as int).push(c));
                assert forall|x: u8| t.contains(x) <==> (listed@.take(i as int).contains(x) || x == c) by {
                    if t.contains(x) {
                        let k = choose|k: int| 0 <= k < t.len() && t[k] == x;
                        if k < i {
                            assert(listed@.take(i as int)[k] == x);
                        }
                    }
                    if x == c {
                        assert(t[i as int] == c);
                    }
                    if listed@.take(i as int).contains(x) {
                        let k = choose|k: int| 0 <= k < i && listed@.take(i as int)[k] == x;
                        assert(t[k] == x);
                    }
                }
                assert forall|x: u8| #[trigger] self.channel_index()[x] == (if t.contains(x) {
                    before[x].insert(id.0)
                } else {
                    before[x]
                }) by {
                    if x == c && listed@.take(i as int).contains(c) {
                        assert(before[c].insert(id.0).insert(id.0) =~= before[c].insert(id.0));
                    }
                }
            }
            i = i + 1;
        }
        proof {
            assert(listed@.take(listed@.len() as int) =~= listed@);
            assert forall|c: u8| listed@.contains(c) == chans.contains(c) by {
                if listed@.contains(c) {
                    let k = choose|k: int| 0 <= k < listed@.len() && listed@[k] == c;
                    assert(listed@.to_set().contains(listed@[k]));
                }
                if chans.contains(c) {
                    assert(listed@.to_set().contains(c));
                }
            }
            assert forall|c: u8| #[trigger] self.channel_index()[c] == (if chans.contains(c) {
                before[c].insert(id.0)
            } else {
                before[c]
            }) by {
                assert(listed@.take(listed@.len() as int).contains(c) == listed@.contains(c));
                assert(listed@.contains(c) == chans.contains(c));
            }
            assert(before == old(self).channel_index());
        }
        let ghost ci = self.channel_index();
        self.stats.total_groups = self.stats.total_groups + 1;
        assert(self.channel_index() == ci);
        id
    }

    /// Adds a player to a group; returns whether the player was added (the
    /// group exists, is not full, and the player was not a member), in
    /// which case the group is filed under the player and the subscription
    /// count grows by one.
    pub fn add_player_to_group(&mut self, player_id: PlayerId, group_id: MulticastGroupId) -> (added: bool)
        requires
            old(self).wf(),
            old(self).statistics().total_subscriptions < usize::MAX,
            old(self).group_map().contains_key(group_id.0) ==> old(self).group_map()[group_id.0].statistics().member_additions < u64::MAX,
        ensures
            final(self).wf(),
            added == (old(self).group_map().contains_key(group_id.0) && {
                let g = old(self).group_map()[group_id.0];
                g.member_set().len() < g.max_members && !g.member_set().contains(player_id.0)
            }),
            final(self).group_map().dom() == old(self).group_map().dom(),
            forall|k: u64| k != group_id.0 && #[trigger] old(self).group_map().contains_key(k) ==> final(self).group_map()[k] == old(self).group_map()[k],
            old(self).group_map().contains_key(group_id.0) ==> ({
                let g0 = old(self).group_map()[group_id.0];
                let g1 = final(self).group_map()[group_id.0];
                &&& g1.member_set() == (if g0.member_set().len() < g0.max_members { g0.member_set().insert(player_id.0) } else { g0.member_set() })
                &&& g1.channel_set() == g0.channel_set()
                &&& g1.max_members == g0.max_members
                &&& g1.statistics() == (GroupStats {
                    member_additions: (g0.statistics().member_additions + if added { 1int } else { 0 }) as u64,
                    ..g0.statistics()
                })
            }),
            added ==> final(self).player_index() == old(self).player_index().insert(
                player_id.0,
                if old(self).player_index().contains_key(player_id.0) {
                    old(self).player_index()[player_id.0].insert(group_id.0)
                } else {
                    set![group_id.0]
                },
            ),
            !added ==> final(self).player_index() == old(self).player_index(),
            final(self).channel_index() == old(self).channel_index(),
            final(self).statistics() == (MulticastStats {
                total_subscriptions: (old(self).statistics().total_subscriptions + if added { 1int } else { 0 }) as usize,
                ..old(self).statistics()
            }),
    {
        let ghost pi = self.player_index();
        match self.groups.remove(&group_id.0) {
            Some(g) => {
                let mut group = g;
                let added = group.add_member(player_id);
                self.groups.insert(group_id.0, group);
                assert(self.groups@.dom() =~= old(self).groups@.dom());
                if added {
                    let mut set = match self.player_groups.remove(&player_id.0) {
                        Some(s) => s,
                        None => HashSet::new(),
                    };
                    set.insert(group_id.0);
                    self.player_groups.insert(player_id.0, set);
                    self.stats.total_subscriptions = self.stats.total_subscriptions + 1;
                    proof {
                        let want = pi.insert(
                            player_id.0,
                            if pi.contains_key(player_id.0) { pi[player_id.0].insert(group_id.0) } else { set![group_id.0] },
                        );
                        assert(self.player_index() =~= want);
                    }
                }
                assert(self.channel_index() =~= old(self).channel_index());
                added
            },
            None => {
                assert(self.groups@ =~= old(self).groups@);
                false
            },
        }
    }

    /// Removes a player from a group; returns whether the player was a
    /// member, in which case the group is no longer filed under the player
    /// (a player left in no group is dropped from the index) and the
    /// subscription count shrinks by one (not below zero).
    pub fn remove_player_from_group(&mut self, player_id: PlayerId, group_id: MulticastGroupId) -> (removed: bool)
        requires
            old(self).wf(),
            old(self).group_map().contains_key(group_id.0) ==> old(self).group_map()[group_id.0].statistics().member_removals < u64::MAX,
        ensures
            final(self).wf(),
            removed == (old(self).group_map().contains_key(group_id.0) && old(self).group_map()[group_id.0].member_set().contains(player_id.0)),
            final(self).group_map().dom() == old(self).group_map().dom(),
            forall|k: u64| k != group_id.0 && #[trigger] old(self).group_map().contains_key(k) ==> final(self).group_map()[k] == old(self).group_map()[k],
            old(self).group_map().contains_key(group_id.0) ==> final(self).group_map()[group_id.0].member_set()
                == old(self).group_map()[group_id.0].member_set().remove(player_id.0),
            removed && old(self).player_index().contains_key(player_id.0) ==> final(self).player_index() == (if old(self).player_index()[player_id.0].remove(group_id.0).len() == 0 {
                old(self).player_index().remove(player_id.0)
            } else {
                old(self).player_index().insert(player_id.0, old(self).player_index()[player_id.0].remove(group_id.0))
            }),
            !(removed && old(self).player_index().contains_key(player_id.0)) ==> final(self).player_index() == old(self).player_index(),
            final(self).channel_index() == old(self).channel_index(),
            final(self).statistics() == (MulticastStats {
                total_subscriptions: if removed && old(self).statistics().total_subscriptions > 0 {
                    (old(self).statistics().total_subscriptions - 1) as usize
                } else {
                    old(self).statistics().total_subscriptions
                },
                ..old(self).statistics()
            }),
    {
        let ghost pi = self.player_index();
        match self.groups.remove(&group_id.0) {
            Some(g) => {
                let mut group = g;
                let removed = group.remove_member(player_id);
                self.groups.insert(group_id.0, group);
                assert(self.groups@.dom() =~= old(self).groups@.dom());
                if removed {
                    match self.player_groups.remove(&player_id.0) {
                        Some(s) => {
                            let mut set = s;
                            set.remove(&group_id.0);
                            if set.len() != 0 {
                                self.player_groups.insert(player_id.0, set);
                                assert(self.player_index() =~= pi.insert(player_id.0, pi[player_id.0].remove(group_id.0)));
                            } else {
                                assert(self.player_index() =~= pi.remove(player_id.0));
                            }
                        },
                        None => {
                            assert(self.player_groups@ =~= old(self).player_groups@);
                        },
                    }
                    self.stats.total_subscriptions = self.stats.total_subscriptions.saturating_sub(1);
                }
                assert(self.channel_index() =~= old(self).channel_index());
                removed
            },
            None => {
                assert(self.groups@ =~= old(self).groups@);
                false
            },
        }
    }

    /// Counts a broadcast of `data_len` bytes on a channel of a group:
    /// returns the number of members reached, or the error when the group
    /// does not exist or does not handle the channel.
    pub fn broadcast_to_group(&mut self, group_id: MulticastGroupId, data_len: usize, channel: u8) -> (r: Result<usize, MulticastError>)
        requires
            old(self).wf(),
            old(self).statistics().messages_sent < u64::MAX,
            old(self).group_map().contains_key(group_id.0) ==> ({
                let g = old(self).group_map()[group_id.0];
                &&& g.statistics().messages_sent < u64::MAX
                &&& g.statistics().bytes_sent + data_len <= u64::MAX
                &&& old(self).statistics().bytes_sent + data_len * g.member_set().len() <= u64::MAX
            }),
        ensures
            final(self).wf(),
            !old(self).group_map().contains_key(group_id.0) ==> r == Err::<usize, MulticastError>(MulticastError::GroupNotFound(group_id))
                && final(self).statistics() == old(self).statistics(),
            old(self).group_map().contains_key(group_id.0) && !old(self).group_map()[group_id.0].channel_set().contains(channel)
                ==> r == Err::<usize, MulticastError>(MulticastError::ChannelNotSupported(channel))
                && final(self).statistics() == old(self).statistics() && final(self).group_map() == old(self).group_map(),
            old(self).group_map().contains_key(group_id.0) && old(self).group_map()[group_id.0].channel_set().contains(channel) ==> ({
                let g = old(self).group_map()[group_id.0];
                &&& r == Ok::<usize, MulticastError>(g.member_set().len() as usize)
                &&& final(self).statistics() == (MulticastStats {
                    messages_sent: (old(self).statistics().messages_sent + 1) as u64,
                    bytes_sent: (old(self).statistics().bytes_sent + data_len * g.member_set().len()) as u64,
                    ..old(self).statistics()
                })
                &&& final(self).group_map()[group_id.0].statistics() == (GroupStats {
                    messages_sent: (g.statistics().messages_sent + 1) as u64,
                    bytes_sent: (g.statistics().bytes_sent + data_len) as u64,
                    ..g.statistics()
                })
                &&& final(self).group_map()[group_id.0].member_set() == g.member_set()
                &&& final(self).group_map()[group_id.0].channel_set() == g.channel_set()
                &&& final(self).group_map()[group_id.0].max_members == g.max_members
            }),
            final(self).group_map().dom() == old(self).group_map().dom(),
            forall|k: u64| k != group_id.0 && #[trigger] old(self).group_map().contains_key(k) ==> final(self).group_map()[k] == old(self).group_map()[k],
            final(self).channel_index() == old(self).channel_index(),
            final(self).player_index() == old(self).player_index(),
    {
        match self.groups.remove(&group_id.0) {
            Some(g) => {
                let mut group = g;
                if group.handles_channel(channel) {
                    let member_count = group.member_count();
                    group.record_broadcast(data_len);
                    self.groups.insert(group_id.0, group);
                    assert(self.groups@.dom() =~= old(self).groups@.dom());
                    self.stats.messages_sent = self.stats.messages_sent + 1;
                    assert(data_len as u64 * member_count as u64 == data_len * member_count) by (nonlinear_arith)
                        requires
                            data_len * member_count <= u64::MAX,
                    {}
                    self.stats.bytes_sent = self.stats.bytes_sent + data_len as u64 * member_count as u64;
                    assert(self.channel_index() =~= old(self).channel_index());
                    assert(self.player_index() =~= old(self).player_index());
                    Ok(member_count)
                } else {
                    self.groups.insert(group_id.0, group);
                    assert(self.groups@ =~= old(self).groups@);
                    Err(MulticastError::ChannelNotSupported(channel))
                }
            },
            None => {
                assert(self.groups@ =~= old(self).groups@);
                Err(MulticastError::GroupNotFound(group_id))
            },
        }
    }

    /// The groups filed under a channel, in no particular order.
    pub fn get_groups_for_channel(&self, channel: u8) -> (r: Vec<MulticastGroupId>)
        ensures
            r@.map_values(|g: MulticastGroupId| g.0).to_set() == self.channel_index()[channel],
            r@.len() == self.channel_index()[channel].len(),
    {
        let mut out: Vec<MulticastGroupId> = Vec::new();
        match self.channel_groups.get(&channel) {
            Some(set) => {
                let ghost all = spec_hash_keys_iter(set).remaining();
                proof {
                    axiom_spec_hash_keys_iter(set);
                }
                for x in it: set.iter()
                    invariant
                        it.seq() == all,
                        all.unref().to_set() == set@,
                        out@.len() == it.index(),
                        forall|j: int| 0 <= j < out@.len() ==> (#[trigger] out@[j]).0 == *all[j],
                {
                    out.push(MulticastGroupId(*x));
                }
                proof {
                    assert(out@.map_values(|g: MulticastGroupId| g.0) =~= all.unref());
                }
            },
            None => {
                assert(out@.map_values(|g: MulticastGroupId| g.0).to_set() =~= Set::<u64>::empty());
            },
        }
        out
    }

    fn unfile_everywhere(&mut self, group: u64)
        ensures
            forall|c: u8| #[trigger] final(self).channel_index()[c] == old(self).channel_index()[c].remove(group),
            final(self).groups@ == old(self).groups@,
            final(self).player_groups@ == old(self).player_groups@,
            final(self).stats == old(self).stats,
    {
        let mut c: u16 = 0;
        while c < 256
            invariant
                c <= 256,
                forall|x: u8| #[trigger] self.channel_index()[x] == if (x as u16) < c {
                    old(self).channel_index()[x].remove(group)
                } else {
                    old(self).channel_index()[x]
                },
                self.groups@ == old(self).groups@,
                self.player_groups@ == old(self).player_groups@,
                self.stats == old(self).stats,
            decreases 256 - c,
        {
            let ch = c as u8;
            let ghost before = self.channel_index();
            match self.channel_groups.remove(&ch) {
                Some(s) => {
                    let mut set = s;
                    set.remove(&group);
                    self.channel_groups.insert(ch, set);
                    assert(self.channel_index() =~= before.insert(ch, before[ch].remove(group)));
                },
                None => {
                    assert(before[ch].remove(group) =~= before[ch]);
                    assert(self.channel_index() =~= before.insert(ch, before[ch].remove(group)));
                },
            }
            c = c + 1;
        }
    }

    /// Drops the groups without members, and files them under no channel;
    /// the group count becomes the number of groups left.
    pub fn cleanup_empty_groups(&mut self)
        requires
            old(self).wf(),
        ensures
            final(self).wf(),
            forall|k: u64| #[trigger] final(self).group_map().contains_key(k) == (old(self).group_map().contains_key(k)
                && old(self).group_map()[k].member_set().len() != 0),
            forall|k: u64| #[trigger] final(self).group_map().contains_key(k) ==> final(self).group_map()[k] == old(self).group_map()[k],
            forall|c: u8| #[trigger] final(self).channel_index()[c] == old(self).channel_index()[c].filter(|g: u64|
                !(old(self).group_map().contains_key(g) && old(self).group_map()[g].member_set().len() == 0)),
            final(self).player_index() == old(self).player_index(),
            final(self).statistics() == (MulticastStats { total_groups: final(self).group_map().len() as usize, ..old(self).statistics() }),
    {
        let ghost g0 = self.group_map();
        let ghost empty_in_old = |g: u64| g0.contains_key(g) && g0[g].member_set().len() == 0;
        let mut keys: Vec<u64> = Vec::new();
        let ghost all = spec_keys_iter(&self.groups).remaining();
        proof {
            axiom_spec_keys_iter(&self.groups);
        }
        for k in it: self.groups.keys()
            invariant
                it.seq() == all,
                all.unref().to_set() == g0.dom(),
                all.no_duplicates(),
                keys@.len() == it.index(),
                forall|j: int| 0 <= j < keys@.len() ==> #[trigger] keys@[j] == *all[j],
        {
            keys.push(*k);
        }
        proof {
            assert(keys@ =~= all.unref());
            assert forall|a: int, b: int| 0 <= a < b < keys@.len() implies keys@[a] != keys@[b] by {
                assert(all[a] != all[b]);
            }
        }
        let mut i: usize = 0;
        while i < keys.len()
            invariant
                i <= keys@.len(),
                keys@.to_set() == g0.dom(),
                forall|a: int, b: int| 0 <= a < b < keys@.len() ==> keys@[a] != keys@[b],
                g0 == old(self).group_map(),
                forall|k: u64| g0.contains_key(k) ==> #[trigger] g0[k].id.0 == k,
                forall|k: u64| #[trigger] self.group_map().contains_key(k) == (g0.contains_key(k)
                    && !(keys@.take(i as int).contains(k) && g0[k].member_set().len() == 0)),
                forall|k: u64| #[trigger] self.group_map().contains_key(k) ==> self.group_map()[k] == g0[k],
                forall|c: u8| #[trigger] self.channel_index()[c] == old(self).channel_index()[c].filter(|g: u64|
                    !(keys@.take(i as int).contains(g) && g0.contains_key(g) && g0[g].member_set().len() == 0)),
                self.player_groups@ == old(self).player_groups@,
                self.stats == old(self).stats,
            decreases keys@.len() - i,
        {
            let k = keys[i];
            let ghost t = keys@.take(i + 1);
            proof {
                assert(t =~= keys@.take(i as int).push(k));
                assert(keys@.to_set().contains(keys@[i as int]));
                assert forall|x: u64| t.contains(x) <==> (keys@.take(i as int).contains(x) || x == k) by {
                    if t.contains(x) {
                        let j = choose|j: int| 0 <= j < t.len() && t[j] == x;
                        if j < i {
                            assert(keys@.take(i as int)[j] == x);
                        }
                    }
                    if x == k {
                        assert(t[i as int] == k);
                    }
                    if keys@.take(i as int).contains(x) {
                        let j = choose|j: int| 0 <= j < i && keys@.take(i as int)[j] == x;
                        assert(t[j] == x);
                    }
                }
                assert(!keys@.take(i as int).contains(k)) by {
                    if keys@.take(i as int).contains(k) {
                        let j = choose|j: int| 0 <= j < i && keys@.take(i as int)[j] == k;
                        assert(keys@[j] == keys@[i as int]);
                    }
                }
            }
            proof {
                assert(self.group_map().contains_key(k) == g0.contains_key(k));
            }
            let empty = match self.groups.get(&k) {
                Some(g) => {
                    proof {
                        assert(self.groups@.contains_key(k) && self.groups@[k] == *g);
                        assert(self.group_map()[k] == g0[k]);
                    }
                    g.is_empty()
                },
                None => false,
            };
            assert(empty == (g0.contains_key(k) && g0[k].member_set().len() == 0));
            if empty {
                let ghost before_ci = self.channel_index();
                let _ = self.groups.remove(&k);
                self.unfile_everywhere(k);
                proof {
                    assert forall|c: u8| #[trigger] self.channel_index()[c] == old(self).channel_index()[c].filter(|g: u64|
                        !(t.contains(g) && g0.contains_key(g) && g0[g].member_set().len() == 0)) by {
                        let lhs = self.channel_index()[c];
                        let rhs = old(self).channel_index()[c].filter(|g: u64|
                            !(t.contains(g) && g0.contains_key(g) && g0[g].member_set().len() == 0));
                        let prev = old(self).channel_index()[c].filter(|g: u64|
                            !(keys@.take(i as int).contains(g) && g0.contains_key(g) && g0[g].member_set().len() == 0));
                        assert(lhs == before_ci[c].remove(k));
                        assert(before_ci[c] == prev);
                        assert forall|g: u64| lhs.contains(g) == rhs.contains(g) by {
                            assert(t.contains(g) == (keys@.take(i as int).contains(g) || g == k));
                        }
                        assert(lhs =~= rhs);
                    }
                    assert forall|x: u64| #[trigger] self.group_map().contains_key(x) == (g0.contains_key(x)
                        && !(t.contains(x) && g0[x].member_set().len() == 0)) by {
                        assert(t.contains(x) == (keys@.take(i as int).contains(x) || x == k));
                    }
                }
            } else {
                proof {
                    assert forall|c: u8| #[trigger] self.channel_index()[c] == old(self).channel_index()[c].filter(|g: u64|
                        !(t.contains(g) && g0.contains_key(g) && g0[g].member_set().len() == 0)) by {
                        let lhs = self.channel_index()[c];
                        let rhs = old(self).channel_index()[c].filter(|g: u64|
                            !(t.contains(g) && g0.contains_key(g) && g0[g].member_set().len() == 0));
                        assert forall|g: u64| lhs.contains(g) == rhs.contains(g) by {
                            assert(t.contains(g) == (keys@.take(i as int).contains(g) || g == k));
                        }
                        assert(lhs =~= rhs);
                    }
                    assert forall|x: u64| #[trigger] self.group_map().contains_key(x) == (g0.contains_key(x)
                        && !(t.contains(x) && g0[x].member_set().len() == 0)) by {
                        assert(t.contains(x) == (keys@.take(i as int).contains(x) || x == k));
                    }
                }
            }
            i = i + 1;
        }
        proof {
            assert(keys@.take(keys@.len() as int) =~= keys@);
            assert forall|k: u64| keys@.contains(k) == g0.contains_key(k) by {
                if keys@.contains(k) {
                    let j = choose|j: int| 0 <= j < keys@.len() && keys@[j] == k;
                    assert(keys@.to_set().contains(keys@[j]));
                }
                if g0.contains_key(k) {
                    assert(keys@.to_set().contains(k));
                }
            }
            assert forall|c: u8| #[trigger] self.channel_index()[c] == old(self).channel_index()[c].filter(|g: u64|
                !(old(self).group_map().contains_key(g) && old(self).group_map()[g].member_set().len() == 0)) by {
                assert(self.channel_index()[c] =~= old(self).channel_index()[c].filter(|g: u64|
                    !(old(self).group_map().contains_key(g) && old(self).group_map()[g].member_set().len() == 0)));
            }
        }
        let ghost ci = self.channel_index();
        let ghost gm = self.group_map();
        let n = self.groups.len();
        self.stats.total_groups = n;
        assert(self.channel_index() == ci);
        assert(self.player_index() =~= old(self).player_index());
    }

    /// Counts a LOD room created alongside the groups.
    pub fn record_lod_room(&mut self)
        requires
            old(self).statistics().lod_rooms < usize::MAX,
        ensures
            final(self).statistics() == (MulticastStats { lod_rooms: (old(self).statistics().lod_rooms + 1) as usize, ..old(self).statistics() }),
            final(self).group_map() == old(self).group_map(),
            final(self).channel_index() == old(self).channel_index(),
            final(self).player_index() == old(self).player_index(),
    {
        self.stats.lod_rooms = self.stats.lod_rooms + 1;
    }
}

} // verus!
