//! Event type constants for binary events.

use vstd::prelude::*;

verus! {

/// Position update events.
pub const POSITION_UPDATE: u16 = 0x0001;

/// Player action events.
pub const ACTION_EVENT: u16 = 0x0002;

/// Health update events.
pub const HEALTH_UPDATE: u16 = 0x0003;

/// Inventory update events.
pub const INVENTORY_UPDATE: u16 = 0x0004;

} // verus!
