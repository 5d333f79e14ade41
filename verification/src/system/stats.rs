//! Event system statistics.

use vstd::prelude::*;

verus! {

/// Counters of the event system.
#[derive(Debug, Clone, Copy, PartialEq, Eq, Structural)]
pub struct HandlerStats {
    /// Total number of registered event handlers
    pub total_handlers: usize,
    /// Total number of events emitted since system start
    pub events_emitted: u64,
    /// Total number of GORC events emitted
    pub gorc_events_emitted: u64,
}

/// Handler count breakdown by event category
#[derive(Debug, Clone, Copy, PartialEq, Eq, Structural)]
pub struct HandlerCategoryStats {
    /// Number of core event handlers
    pub core_handlers: usize,
    /// Number of client event handlers
    pub client_handlers: usize,
    /// Number of plugin event handlers
    pub plugin_handlers: usize,
    /// Number of basic GORC event handlers
    pub gorc_handlers: usize,
    /// Number of GORC instance event handlers
    pub gorc_instance_handlers: usize,
}

} // verus!
