//! Horizon event system: verified core logic for event routing, binary
//! framing, UDP packet handling and reliability, and GORC replication
//! bookkeeping.

pub mod system;
pub mod text;
pub mod types;
pub mod gorc;
pub mod utils;
pub mod bytes;
pub mod events;
pub mod protocol;
pub mod binary;
pub mod serialization;
pub mod transport;
pub mod communication;
