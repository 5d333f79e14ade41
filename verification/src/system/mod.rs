//! Event system components.

pub mod cache;
pub mod registry;
pub mod keys;
pub mod stats;
pub mod udp;
pub mod udp_table;
pub mod udp_reliability;
