//! Game Object Replication Channels (GORC): channels, priorities, object
//! subscriptions, multicast groups and the network update queues.

pub mod channels;
pub mod defaults;
pub mod instance;
pub mod multicast;
pub mod network;
pub mod object_types;
pub mod spatial;

use vstd::prelude::*;

verus! {

/// Current version of the GORC system
pub const GORC_VERSION: &'static str = "1.0.0";

/// Maximum number of replication channels supported
pub const MAX_CHANNELS: u8 = 4;

} // verus!
