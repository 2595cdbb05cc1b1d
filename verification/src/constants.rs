//! Protocol constants shared across the engine.

use vstd::prelude::*;

verus! {

/// The hard timeout of one feedback cycle, in milliseconds.
pub const FEEDBACK_TIMEOUT_MS: u64 = 493;

/// The lifetime of the ghost cell, in seconds: seven years.
pub const GHOST_CELL_DEATH: u64 = 220_752_000;

} // verus!
