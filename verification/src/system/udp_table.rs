//! The UDP connection table: connections by peer address, and the address
//! each player is reached at.

use crate::events::{is_handler_execution, EventError};
use crate::system::udp::{
    admit_sequence, checksum_spec, deflate_chosen, deflate_fast, inflate, prepare_outgoing, sequence_accepted,
    verify_checksum, IncomingVerdict, UdpCompressionType, UdpConnection, UdpConnectionState, UdpEventPacket,
    UdpStats,
};
use crate::types::{uuid_text, PlayerId};
use crate::text::str_eq;
use std::collections::HashMap;
use vstd::prelude::*;
use vstd::string::StringExecFns;
use vstd::std_specs::hash::{axiom_spec_values_iter, spec_values_iter};
use vstd::std_specs::iter::IteratorSpec;

verus! {

broadcast use vstd::std_specs::hash::group_hash_axioms;

/// No two connections share a peer address.
pub open spec fn distinct_addrs(cs: Seq<UdpConnection>) -> bool {
    forall|i: int, j: int| 0 <= i < j < cs.len() ==> cs[i].addr@ != cs[j].addr@
}

/// Whether a connection has the peer address.
pub open spec fn has_conn(cs: Seq<UdpConnection>, addr: Seq<char>) -> bool {
    exists|i: int| 0 <= i < cs.len() && (#[trigger] cs[i]).addr@ == addr
}

/// The position of the connection with the peer address.
pub open spec fn conn_pos(cs: Seq<UdpConnection>, addr: Seq<char>) -> int {
    choose|i: int| 0 <= i < cs.len() && (#[trigger] cs[i]).addr@ == addr
}

/// The connection with the peer address.
pub open spec fn conn_for(cs: Seq<UdpConnection>, addr: Seq<char>) -> UdpConnection {
    cs[conn_pos(cs, addr)]
}

/// Connections at other addresses are the same, and no other address
/// gains or loses a connection.
pub open spec fn others_unchanged(a: Seq<UdpConnection>, b: Seq<UdpConnection>, addr: Seq<char>) -> bool {
    forall|x: Seq<char>| x != addr ==> (#[trigger] has_conn(b, x) == has_conn(a, x)) && (has_conn(a, x)
        ==> conn_for(b, x) == conn_for(a, x))
}

/// Some player is routed to the address.
pub open spec fn routed_to(routes: Map<u128, String>, addr: Seq<char>) -> bool {
    exists|k: u128| routes.contains_key(k) && #[trigger] routes[k]@ == addr
}

/// The sum of a counter over connections.
pub open spec fn sum_sent(cs: Seq<UdpConnection>) -> nat
    decreases cs.len(),
{
    if cs.len() == 0 {
        0
    } else {
        sum_sent(cs.drop_last()) + cs.last().bytes_sent as nat
    }
}

/// The sum of received bytes over connections.
pub open spec fn sum_received(cs: Seq<UdpConnection>) -> nat
    decreases cs.len(),
{
    if cs.len() == 0 {
        0
    } else {
        sum_received(cs.drop_last()) + cs.last().bytes_received as nat
    }
}

proof fn lemma_pos(cs: Seq<UdpConnection>, i: int)
    requires
        distinct_addrs(cs),
        0 <= i < cs.len(),
    ensures
        has_conn(cs, cs[i].addr@),
        conn_pos(cs, cs[i].addr@) == i,
{
    assert(has_conn(cs, cs[i].addr@));
    let j = conn_pos(cs, cs[i].addr@);
    if j != i {
        if j < i {
            assert(cs[j].addr@ != cs[i].addr@);
        } else {
            assert(cs[i].addr@ != cs[j].addr@);
        }
    }
}

proof fn lemma_sum_prefix(cs: Seq<UdpConnection>, n: int)
    requires
        0 <= n <= cs.len(),
    ensures
        sum_sent(cs.take(n)) <= sum_sent(cs),
        sum_received(cs.take(n)) <= sum_received(cs),
    decreases cs.len() - n,
{
    if n < cs.len() {
        lemma_sum_prefix(cs, n + 1);
        assert(cs.take(n + 1).drop_last() =~= cs.take(n));
    } else {
        assert(cs.take(n) =~= cs);
    }
}

/// UDP connections by peer address (in their text form), and the address
/// each player was last added at.
pub struct UdpConnectionTable {
    connections: Vec<UdpConnection>,
    player_addresses: HashMap<u128, String>,
}

impl UdpConnectionTable {
    /// The connections.
    pub closed spec fn conns(&self) -> Seq<UdpConnection> {
        self.connections@
    }

    /// The address of each player, by the player's UUID value.
    pub closed spec fn routes(&self) -> Map<u128, String> {
        self.player_addresses@
    }

    /// No two connections share an address.
    pub open spec fn wf(&self) -> bool {
        distinct_addrs(self.conns())
    }

    /// An empty table.
    pub fn new() -> (r: Self)
        ensures
            r.wf(),
            r.conns().len() == 0,
            r.routes() == Map::<u128, String>::empty(),
    {
        UdpConnectionTable { connections: Vec::new(), player_addresses: HashMap::new() }
    }

    fn find(&self, addr: &str) -> (r: Option<usize>)
        requires
            self.wf(),
        ensures
            match r {
                Some(i) => i < self.conns().len() && self.conns()[i as int].addr@ == addr@ && conn_pos(
                    self.conns(),
                    addr@,
                ) == i,
                None => !has_conn(self.conns(), addr@),
            },
    {
        let mut i: usize = 0;
        while i < self.connections.len()
            invariant
                self.wf(),
                i <= self.connections@.len(),
                forall|k: int| 0 <= k < i ==> self.connections@[k].addr@ != addr@,
            decreases self.connections@.len() - i,
        {
            if str_eq(self.connections[i].addr.as_str(), addr) {
                proof {
                    lemma_pos(self.conns(), i as int);
                }
                return Some(i);
            }
            i = i + 1;
        }
        None
    }

    /// Whether a connection is known at the address.
    pub fn has_connection(&self, addr: &str) -> (r: bool)
        requires
            self.wf(),
        ensures
            r == has_conn(self.conns(), addr@),
    {
        self.find(addr).is_some()
    }

    /// The address a player was added at.
    pub fn address_of(&self, player_id: PlayerId) -> (r: Option<String>)
        ensures
            match r {
                Some(a) => self.routes().contains_key(player_id.0) && a@ == self.routes()[player_id.0]@,
                None => !self.routes().contains_key(player_id.0),
            },
    {
        match self.player_addresses.get(&player_id.0) {
            Some(a) => Some(a.clone()),
            None => None,
        }
    }

    /// Adds a fresh connection for a player at an address, replacing any
    /// connection at that address, and routes the player to the address.
    pub fn add_udp_connection(&mut self, addr: String, player_id: PlayerId, connection_id: String)
        requires
            old(self).wf(),
        ensures
            final(self).wf(),
            has_conn(final(self).conns(), addr@),
            ({
                let c = conn_for(final(self).conns(), addr@);
                &&& c.player_id == player_id
                &&& c.connection_id@ == connection_id@
                &&& c.out_sequence == 0
                &&& c.in_sequence == 0
                &&& c.bytes_sent == 0
                &&& c.bytes_received == 0
                &&& c.state == UdpConnectionState::Connecting
            }),
            others_unchanged(old(self).conns(), final(self).conns(), addr@),
            final(self).routes().dom() == old(self).routes().dom().insert(player_id.0),
            final(self).routes()[player_id.0]@ == addr@,
            forall|k: u128| k != player_id.0 && #[trigger] old(self).routes().contains_key(k)
                ==> final(self).routes()[k] == old(self).routes()[k],
    {
        let ghost cs = self.conns();
        let route = addr.clone();
        let conn = UdpConnection::new(addr, player_id, connection_id);
        let found = self.find(conn.addr.as_str());
        match found {
            Some(i) => {
                let _ = self.connections.remove(i);
                self.connections.insert(i, conn);
                proof {
                    let ns = self.conns();
                    assert(ns =~= cs.update(i as int, ns[i as int]));
                    assert(distinct_addrs(ns)) by {
                        assert forall|a: int, b: int| 0 <= a < b < ns.len() implies ns[a].addr@ != ns[b].addr@ by {
                            if a != i && b != i {
                                assert(ns[a] == cs[a] && ns[b] == cs[b]);
                            } else if a == i {
                                assert(ns[b] == cs[b]);
                                assert(cs[i as int].addr@ != cs[b].addr@);
                            } else {
                                assert(ns[a] == cs[a]);
                                assert(cs[a].addr@ != cs[i as int].addr@);
                            }
                        }
                    }
                    lemma_pos(ns, i as int);
                    assert forall|x: Seq<char>| x != route@ implies (#[trigger] has_conn(ns, x) == has_conn(cs, x))
                        && (has_conn(cs, x) ==> conn_for(ns, x) == conn_for(cs, x)) by {
                        if has_conn(cs, x) {
                            let j = conn_pos(cs, x);
                            assert(j != i);
                            assert(ns[j] == cs[j]);
                            lemma_pos(cs, j);
                            lemma_pos(ns, j);
                        }
                        if has_conn(ns, x) {
                            let j = conn_pos(ns, x);
                            assert(j != i);
                            assert(ns[j] == cs[j]);
                        }
                    }
                }
            },
            None => {
                self.connections.push(conn);
                proof {
                    let ns = self.conns();
                    assert(ns =~= cs.push(ns[cs.len() as int]));
                    assert(distinct_addrs(ns)) by {
                        assert forall|a: int, b: int| 0 <= a < b < ns.len() implies ns[a].addr@ != ns[b].addr@ by {
                            if b < cs.len() {
                                assert(ns[a] == cs[a] && ns[b] == cs[b]);
                            } else {
                                assert(ns[a] == cs[a]);
                            }
                        }
                    }
                    lemma_pos(ns, cs.len() as int);
                    assert forall|x: Seq<char>| x != route@ implies (#[trigger] has_conn(ns, x) == has_conn(cs, x))
                        && (has_conn(cs, x) ==> conn_for(ns, x) == conn_for(cs, x)) by {
                        if has_conn(cs, x) {
                            let j = conn_pos(cs, x);
                            assert(ns[j] == cs[j]);
                            lemma_pos(cs, j);
                            lemma_pos(ns, j);
                        }
                        if has_conn(ns, x) {
                            let j = conn_pos(ns, x);
                            assert(j < cs.len());
                            assert(ns[j] == cs[j]);
                        }
                    }
                }
            },
        }
        self.player_addresses.insert(player_id.0, route);
        assert(self.routes().dom() =~= old(self).routes().dom().insert(player_id.0));
    }

    /// Removes the connection at an address, and the route of its player.
    pub fn remove_udp_connection(&mut self, addr: &str)
        requires
            old(self).wf(),
        ensures
            final(self).wf(),
            !has_conn(final(self).conns(), addr@),
            others_unchanged(old(self).conns(), final(self).conns(), addr@),
            has_conn(old(self).conns(), addr@) ==> final(self).routes() == old(self).routes().remove(
                conn_for(old(self).conns(), addr@).player_id.0,
            ),
            !has_conn(old(self).conns(), addr@) ==> final(self).routes() == old(self).routes(),
    {
        let ghost cs = self.conns();
        match self.find(addr) {
            Some(i) => {
                let conn = self.connections.remove(i);
                proof {
                    let ns = self.conns();
                    assert(ns =~= cs.remove(i as int));
                    assert(distinct_addrs(ns)) by {
                        assert forall|a: int, b: int| 0 <= a < b < ns.len() implies ns[a].addr@ != ns[b].addr@ by {
                            if b < i {
                                assert(ns[a] == cs[a] && ns[b] == cs[b]);
                            } else if a < i {
                                assert(ns[a] == cs[a] && ns[b] == cs[b + 1]);
                            } else {
                                assert(ns[a] == cs[a + 1] && ns[b] == cs[b + 1]);
                            }
                        }
                    }
                    assert(!has_conn(ns, addr@)) by {
                        if has_conn(ns, addr@) {
                            let j = conn_pos(ns, addr@);
                            if j < i {
                                assert(ns[j] == cs[j]);
                                assert(cs[j].addr@ != cs[i as int].addr@);
                            } else {
                                assert(ns[j] == cs[j + 1]);
                                assert(cs[i as int].addr@ != cs[j + 1].addr@);
                            }
                        }
                    }
                    assert forall|x: Seq<char>| x != addr@ implies (#[trigger] has_conn(ns, x) == has_conn(cs, x))
                        && (has_conn(cs, x) ==> conn_for(ns, x) == conn_for(cs, x)) by {
                        if has_conn(cs, x) {
                            let j = conn_pos(cs, x);
                            assert(j != i);
                            lemma_pos(cs, j);
                            if j < i {
                                assert(ns[j] == cs[j]);
                                lemma_pos(ns, j);
                            } else {
                                assert(ns[j - 1] == cs[j]);
                                lemma_pos(ns, j - 1);
                            }
                        }
                        if has_conn(ns, x) {
                            let j = conn_pos(ns, x);
                            if j < i {
                                assert(ns[j] == cs[j]);
                            } else {
                                assert(ns[j] == cs[j + 1]);
                            }
                        }
                    }
                }
                let _ = self.player_addresses.remove(&conn.player_id.0);
            },
            None => {},
        }
    }

    /// Builds the packet for an event to the connection at an address (see
    /// `prepare_outgoing`), or the error when no connection is known there.
    pub fn prepare_packet(
        &mut self,
        addr: &str,
        event_type: &str,
        payload: Vec<u8>,
        timestamp: u64,
        compression_enabled: bool,
        compression_threshold: usize,
    ) -> (r: Result<UdpEventPacket, EventError>)
        requires
            old(self).wf(),
        ensures
            final(self).wf(),
            final(self).routes() == old(self).routes(),
            others_unchanged(old(self).conns(), final(self).conns(), addr@),
            !has_conn(old(self).conns(), addr@) ==> final(self).conns() == old(self).conns() && (r matches Err(e)
                && e is HandlerNotFound && (e matches EventError::HandlerNotFound(m) && m@
                == "No UDP connection to "@ + addr@)),
            has_conn(old(self).conns(), addr@) ==> has_conn(final(self).conns(), addr@) && (r matches Ok(p) && {
                let c0 = conn_for(old(self).conns(), addr@);
                let c1 = conn_for(final(self).conns(), addr@);
                &&& c1.out_sequence == (if c0.out_sequence == u32::MAX { 0 } else { c0.out_sequence + 1 })
                &&& c1.in_sequence == c0.in_sequence
                &&& c1.bytes_sent == c0.bytes_sent
                &&& c1.bytes_received == c0.bytes_received
                &&& c1.player_id == c0.player_id
                &&& p.header.sequence == c1.out_sequence
                &&& p.header.version == 1
                &&& p.header.event_type@ == event_type@
                &&& p.header.source_id@ == uuid_text(c0.player_id.0)
                &&& p.header.target_id@ == Seq::<char>::empty()
                &&& p.header.timestamp == timestamp
                &&& (p.header.compression == UdpCompressionType::Uncompressed ==> p.payload@ == payload@)
                &&& (p.header.compression == UdpCompressionType::Deflate ==> deflate_fast(payload@) == Some(p.payload@)
                    && p.payload@.len() < payload@.len() && inflate(p.payload@) == Some(payload@))
                &&& (p.header.compression == UdpCompressionType::Uncompressed || p.header.compression
                    == UdpCompressionType::Deflate)
                &&& ((p.header.compression == UdpCompressionType::Deflate) == deflate_chosen(
                    compression_enabled,
                    compression_threshold,
                    payload@,
                ))
                &&& p.header.total_size == ((p.payload@.len() + 64) % 0x1_0000_0000) as u32
                &&& p.checksum == checksum_spec(p.payload@)
            }),
    {
        let ghost cs = self.conns();
        match self.find(addr) {
            Some(i) => {
                let mut conn = self.connections.remove(i);
                let p = prepare_outgoing(
                    &mut conn,
                    event_type,
                    payload,
                    timestamp,
                    compression_enabled,
                    compression_threshold,
                );
                self.connections.insert(i, conn);
                proof {
                    self.lemma_replaced(cs, i as int);
                }
                Ok(p)
            },
            None => {
                let mut m = "No UDP connection to ".to_owned();
                m.append(addr);
                Err(EventError::HandlerNotFound(m))
            },
        }
    }

    proof fn lemma_replaced(&self, cs: Seq<UdpConnection>, i: int)
        requires
            distinct_addrs(cs),
            0 <= i < cs.len(),
            self.conns().len() == cs.len(),
            self.conns()[i].addr@ == cs[i].addr@,
            forall|k: int| 0 <= k < cs.len() && k != i ==> self.conns()[k] == cs[k],
        ensures
            self.wf(),
            has_conn(self.conns(), cs[i].addr@),
            conn_pos(self.conns(), cs[i].addr@) == i,
            conn_pos(cs, cs[i].addr@) == i,
            others_unchanged(cs, self.conns(), cs[i].addr@),
    {
        let ns = self.conns();
        assert(distinct_addrs(ns)) by {
            assert forall|a: int, b: int| 0 <= a < b < ns.len() implies ns[a].addr@ != ns[b].addr@ by {
                if a != i && b != i {
                    assert(ns[a] == cs[a] && ns[b] == cs[b]);
                } else if a == i {
                    assert(ns[b] == cs[b]);
                    assert(cs[a].addr@ != cs[b].addr@);
                } else {
                    assert(ns[a] == cs[a]);
                    assert(cs[a].addr@ != cs[b].addr@);
                }
            }
        }
        lemma_pos(ns, i);
        lemma_pos(cs, i);
        let addr = cs[i].addr@;
        assert forall|x: Seq<char>| x != addr implies (#[trigger] has_conn(ns, x) == has_conn(cs, x)) && (has_conn(
            cs,
            x,
        ) ==> conn_for(ns, x) == conn_for(cs, x)) by {
            if has_conn(cs, x) {
                let j = conn_pos(cs, x);
                assert(j != i);
                assert(ns[j] == cs[j]);
                lemma_pos(cs, j);
                lemma_pos(ns, j);
            }
            if has_conn(ns, x) {
                let j = conn_pos(ns, x);
                assert(j != i);
                assert(ns[j] == cs[j]);
            }
        }
    }

    /// Counts bytes sent on the connection at an address, if there is one,
    /// and records that its peer was seen.
    pub fn record_sent(&mut self, addr: &str, bytes: u64)
        requires
            old(self).wf(),
            has_conn(old(self).conns(), addr@) ==> conn_for(old(self).conns(), addr@).bytes_sent + bytes
                <= u64::MAX,
        ensures
            final(self).wf(),
            final(self).routes() == old(self).routes(),
            others_unchanged(old(self).conns(), final(self).conns(), addr@),
            has_conn(final(self).conns(), addr@) == has_conn(old(self).conns(), addr@),
            !has_conn(old(self).conns(), addr@) ==> final(self).conns() == old(self).conns(),
            has_conn(old(self).conns(), addr@) ==> ({
                let c0 = conn_for(old(self).conns(), addr@);
                let c1 = conn_for(final(self).conns(), addr@);
                &&& c1.bytes_sent == c0.bytes_sent + bytes
                &&& c1.bytes_received == c0.bytes_received
                &&& c1.out_sequence == c0.out_sequence
                &&& c1.in_sequence == c0.in_sequence
                &&& c1.player_id == c0.player_id
            }),
    {
        let ghost cs = self.conns();
        match self.find(addr) {
            Some(i) => {
                let mut conn = self.connections.remove(i);
                conn.bytes_sent = conn.bytes_sent + bytes;
                conn.update_last_seen();
                self.connections.insert(i, conn);
                proof {
                    self.lemma_replaced(cs, i as int);
                }
            },
            None => {},
        }
    }

    /// Handles the checks on a packet received from an address: a checksum
    /// mismatch is an error; a packet from an unknown address is ignored;
    /// otherwise the packet is accepted or skipped by its sequence number,
    /// and an accepted one counts the `received` bytes.
    pub fn receive_packet(&mut self, packet: &UdpEventPacket, addr: &str, received: u64) -> (r: Result<
        IncomingVerdict,
        EventError,
    >)
        requires
            old(self).wf(),
            has_conn(old(self).conns(), addr@) ==> conn_for(old(self).conns(), addr@).bytes_received + received
                <= u64::MAX,
        ensures
            final(self).wf(),
            final(self).routes() == old(self).routes(),
            others_unchanged(old(self).conns(), final(self).conns(), addr@),
            has_conn(final(self).conns(), addr@) == has_conn(old(self).conns(), addr@),
            checksum_spec(packet.payload@) != packet.checksum ==> final(self).conns() == old(self).conns() && (
            r matches Err(e) && is_handler_execution(e, "Checksum mismatch"@)),
            checksum_spec(packet.payload@) == packet.checksum && !has_conn(old(self).conns(), addr@)
                ==> final(self).conns() == old(self).conns()
                && r == Ok::<IncomingVerdict, EventError>(IncomingVerdict::UnknownConnection),
            checksum_spec(packet.payload@) == packet.checksum && has_conn(old(self).conns(), addr@) ==> ({
                let c0 = conn_for(old(self).conns(), addr@);
                let c1 = conn_for(final(self).conns(), addr@);
                &&& c1.out_sequence == c0.out_sequence
                &&& c1.bytes_sent == c0.bytes_sent
                &&& c1.player_id == c0.player_id
                &&& if sequence_accepted(c0.in_sequence, packet.header.sequence) {
                    &&& r == Ok::<IncomingVerdict, EventError>(IncomingVerdict::Accepted)
                    &&& c1.in_sequence == (if packet.header.sequence > c0.in_sequence {
                        packet.header.sequence
                    } else {
                        c0.in_sequence
                    })
                    &&& c1.bytes_received == c0.bytes_received + received
                } else {
                    &&& r == Ok::<IncomingVerdict, EventError>(IncomingVerdict::OutOfSequence)
                    &&& c1.in_sequence == c0.in_sequence
                    &&& c1.bytes_received == c0.bytes_received
                }
            }),
    {
        match verify_checksum(packet) {
            Ok(()) => {},
            Err(e) => {
                return Err(e);
            },
        }
        let ghost cs = self.conns();
        match self.find(addr) {
            Some(i) => {
                let mut conn = self.connections.remove(i);
                let verdict = admit_sequence(packet, &mut conn, received);
                self.connections.insert(i, conn);
                proof {
                    self.lemma_replaced(cs, i as int);
                }
                Ok(verdict)
            },
            None => Ok(IncomingVerdict::UnknownConnection),
        }
    }

    /// A copy of the connection at an address, if there is one.
    pub fn connection_snapshot(&self, addr: &str) -> (r: Option<UdpConnection>)
        requires
            self.wf(),
        ensures
            r is Some == has_conn(self.conns(), addr@),
            r matches Some(c) ==> ({
                let k = conn_for(self.conns(), addr@);
                &&& c.bytes_sent == k.bytes_sent
                &&& c.bytes_received == k.bytes_received
                &&& c.out_sequence == k.out_sequence
                &&& c.in_sequence == k.in_sequence
                &&& c.player_id == k.player_id
            }),
    {
        match self.find(addr) {
            Some(i) => {
                let c = &self.connections[i];
                Some(UdpConnection {
                    addr: c.addr.clone(),
                    player_id: c.player_id,
                    connection_id: c.connection_id.clone(),
                    last_seen: c.last_seen,
                    connected_at: c.connected_at,
                    out_sequence: c.out_sequence,
                    in_sequence: c.in_sequence,
                    bytes_sent: c.bytes_sent,
                    bytes_received: c.bytes_received,
                    state: c.state,
                })
            },
            None => None,
        }
    }

    /// Connection statistics as `get_udp_stats` gives them, or `None` when
    /// a byte total does not fit in 64 bits.
    pub fn try_get_udp_stats(&self, send_buffer_size: usize, recv_buffer_size: usize) -> (r: Option<UdpStats>)
        ensures
            r is Some == (sum_sent(self.conns()) <= u64::MAX && sum_received(self.conns()) <= u64::MAX),
            r matches Some(st) ==> ({
                &&& st.connection_count == self.conns().len()
                &&& st.total_bytes_sent == sum_sent(self.conns())
                &&& st.total_bytes_received == sum_received(self.conns())
                &&& st.send_buffer_size == send_buffer_size
                &&& st.recv_buffer_size == recv_buffer_size
            }),
    {
        let ghost cs = self.conns();
        let mut sent: u64 = 0;
        let mut received: u64 = 0;
        let mut sent_ok = true;
        let mut received_ok = true;
        let mut i: usize = 0;
        while i < self.connections.len()
            invariant
                cs == self.conns(),
                i <= cs.len(),
                cs.len() == self.connections@.len(),
                sent_ok ==> sent == sum_sent(cs.take(i as int)),
                !sent_ok ==> sum_sent(cs.take(i as int)) > u64::MAX,
                received_ok ==> received == sum_received(cs.take(i as int)),
                !received_ok ==> sum_received(cs.take(i as int)) > u64::MAX,
            decreases cs.len() - i,
        {
            proof {
                assert(cs.take(i + 1).drop_last() =~= cs.take(i as int));
            }
            if sent_ok {
                match sent.checked_add(self.connections[i].bytes_sent) {
                    Some(v) => { sent = v; },
                    None => { sent_ok = false; },
                }
            }
            if received_ok {
                match received.checked_add(self.connections[i].bytes_received) {
                    Some(v) => { received = v; },
                    None => { received_ok = false; },
                }
            }
            i = i + 1;
        }
        assert(cs.take(i as int) =~= cs);
        if sent_ok && received_ok {
            Some(UdpStats {
                connection_count: self.connections.len(),
                total_bytes_sent: sent,
                total_bytes_received: received,
                send_buffer_size,
                recv_buffer_size,
            })
        } else {
            None
        }
    }

    /// The addresses players are routed to, one per player, in no
    /// particular order.
    pub fn routed_addresses(&self) -> (r: Vec<String>)
        ensures
            r@.len() == self.routes().dom().len(),
            forall|i: int| 0 <= i < r@.len() ==> routed_to(self.routes(), #[trigger] r@[i]@),
    {
        let mut out: Vec<String> = Vec::new();
        let ghost all = spec_values_iter(&self.player_addresses).remaining();
        proof {
            axiom_spec_values_iter(&self.player_addresses);
        }
        for a in it: self.player_addresses.values()
            invariant
                it.seq() == all,
                all.unref().to_set() == self.player_addresses@.values(),
                all.len() == self.player_addresses@.dom().len(),
                out@.len() == it.index(),
                forall|j: int| 0 <= j < out@.len() ==> (#[trigger] out@[j])@ == (*all[j])@,
        {
            out.push(a.clone());
        }
        proof {
            assert forall|i: int| 0 <= i < out@.len() implies routed_to(self.routes(), #[trigger] out@[i]@) by {
                assert(all.unref()[i] == *all[i]);
                assert(all.unref().to_set().contains(all.unref()[i]));
                assert(self.player_addresses@.values().contains(*all[i]));
                let k = choose|k: u128| self.player_addresses@.contains_key(k) && self.player_addresses@[k] == *all[i];
                assert(self.routes().contains_key(k) && self.routes()[k]@ == out@[i]@);
            }
        }
        out
    }

    /// Connection statistics: the number of connections and their byte
    /// totals, with the given socket buffer sizes.
    pub fn get_udp_stats(&self, send_buffer_size: usize, recv_buffer_size: usize) -> (r: UdpStats)
        requires
            sum_sent(self.conns()) <= u64::MAX,
            sum_received(self.conns()) <= u64::MAX,
        ensures
            r.connection_count == self.conns().len(),
            r.total_bytes_sent == sum_sent(self.conns()),
            r.total_bytes_received == sum_received(self.conns()),
            r.send_buffer_size == send_buffer_size,
            r.recv_buffer_size == recv_buffer_size,
    {
        let ghost cs = self.conns();
        let mut sent: u64 = 0;
        let mut received: u64 = 0;
        let mut i: usize = 0;
        while i < self.connections.len()
            invariant
                cs == self.conns(),
                i <= cs.len(),
                cs.len() == self.connections@.len(),
                sum_sent(cs) <= u64::MAX,
                sum_received(cs) <= u64::MAX,
                sent == sum_sent(cs.take(i as int)),
                received == sum_received(cs.take(i as int)),
            decreases cs.len() - i,
        {
            proof {
                assert(cs.take(i + 1).drop_last() =~= cs.take(i as int));
                lemma_sum_prefix(cs, i + 1);
            }
            sent = sent + self.connections[i].bytes_sent;
            received = received + self.connections[i].bytes_received;
            i = i + 1;
        }
        assert(cs.take(i as int) =~= cs);
        UdpStats {
            connection_count: self.connections.len(),
            total_bytes_sent: sent,
            total_bytes_received: received,
            send_buffer_size,
            recv_buffer_size,
        }
    }
}

} // verus!
