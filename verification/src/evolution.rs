//! The ghost cell: a fixed lifetime measured from a genesis timestamp.
//!
//! The engine itself never reads the clock; a supervisor samples the current
//! time and asks these functions whether the era is over. Age is measured by
//! saturating subtraction, so a clock that reads earlier than the genesis
//! timestamp counts as age zero.

use vstd::prelude::*;
use crate::constants::GHOST_CELL_DEATH;

verus! {

/// Watches the age of the system against its fixed lifetime.
pub struct GhostCellOrchestrator {
    born_at: u64,
}

impl GhostCellOrchestrator {
    /// The genesis timestamp this cell was born at, in seconds.
    pub closed spec fn spec_born_at(&self) -> u64 {
        self.born_at
    }

    /// A cell born at the given genesis timestamp.
    pub fn new(genesis_timestamp: u64) -> (r: GhostCellOrchestrator)
        ensures
            r.spec_born_at() == genesis_timestamp,
    {
        GhostCellOrchestrator { born_at: genesis_timestamp }
    }

    /// Whether the cell is still alive at time `now`: its age has not passed
    /// the fixed lifetime.
    pub fn check_vitality(&self, now: u64) -> (r: bool)
        ensures
            r == (spec_age(self.spec_born_at(), now) <= GHOST_CELL_DEATH),
    {
        let age: u64 = if now >= self.born_at {
            now - self.born_at
        } else {
            0
        };
        age <= GHOST_CELL_DEATH
    }

    /// Seconds of life left at time `now`; zero once the lifetime has passed.
    pub fn time_remaining(&self, now: u64) -> (r: u64)
        ensures
            r == spec_time_remaining(self.spec_born_at(), now),
    {
        let death: u128 = (self.born_at as u128) + (GHOST_CELL_DEATH as u128);
        if (now as u128) >= death {
            0
        } else {
            let left: u128 = death - (now as u128);
            if left > u64::MAX as u128 {
                u64::MAX
            } else {
                left as u64
            }
        }
    }
}

/// The cell's age at time `now`: zero when the clock reads before birth.
pub open spec fn spec_age(born_at: u64, now: u64) -> int {
    if now >= born_at {
        now - born_at
    } else {
        0
    }
}

/// The seconds between `now` and the death time `born_at + GHOST_CELL_DEATH`,
/// clamped to zero after death and to `u64::MAX` above it.
pub open spec fn spec_time_remaining(born_at: u64, now: u64) -> u64 {
    let death = born_at + GHOST_CELL_DEATH;
    if now >= death {
        0u64
    } else if death - now > u64::MAX {
        u64::MAX
    } else {
        (death - now) as u64
    }
}

} // verus!
