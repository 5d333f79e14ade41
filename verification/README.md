# horizon_event_system

An event system for game servers: handlers registered by event key, binary
and JSON encodings of events, a UDP transport with checksums, sequencing,
compression and reliability, and GORC (game object replication channels):
per-object subscriptions by zone, priority update queues and batching, and
multicast groups.

The library in `src/` is written in Verus: every function carries a
contract, and laws relating the functions are stated as proof functions
(their names begin with `law_`). Calls into outside crates (uuid, flate2,
serde_json, tokio's clock) go through small trusted wrappers whose doc
comments say what is assumed of them.

Layout:

- `src/system/` — the handler registry and event keys, UDP packets and
  connections, reliability (sequence buffers, retransmission), statistics.
- `src/binary/`, `src/protocol.rs`, `src/serialization.rs`,
  `src/transport.rs`, `src/communication.rs` — encodings and transports.
- `src/gorc/` — channels, replication layers and priorities, the object
  type registry and channel manager, default configurations, object
  subscriptions, the objects of each type, update queues, batching and the
  network replication engine, the update scheduler, multicast groups, spatial-index statistics.
  Radii, frequencies and other `f32` settings are held by their bit
  patterns.
- `src/bytes.rs`, `src/text.rs` — byte and text helpers with exact
  specifications.
- `app/` — the async runtime around the library (sockets, locks, spawned
  tasks), serde wire types, and the floating-point geometry (zone
  distances, quadtree, level-of-detail rooms, congestion control,
  frequency arithmetic) whose results the library takes as flags.
- `tests/` — tests of the library.

Data representation:

- The handler registry keeps its event keys and each key's handlers in
  vectors (`Vec<(String, Vec<H>)>`), with the invariant that no key occurs
  twice; lookups are linear. Concurrent access is left to `app/`, which
  wraps the registry in a lock.
- The UDP connection table keeps its connections in a vector keyed by the
  peer address as text, with the invariant that no address occurs twice.
- Clock readings enter the library as nanoseconds passed, measured by one
  trusted wrapper (`nanos_between`); the decisions that depend on them
  (channel readiness, objects due for an update, bandwidth expiry) are
  verified functions that take those numbers as arguments.
