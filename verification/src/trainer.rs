//! The background trainer's homeostasis rule.
//!
//! The trainer runs outside the engine on its own cadence; the decision it
//! takes each cycle — inhibit an over-excited network, stimulate a dormant
//! one, or leave it alone — is a pure function of the measured activity.

use vstd::prelude::*;
use crate::fixed_point::FixedPoint;

verus! {

/// Activity at or above this raw fixed-point value (100.0) is over-excited.
pub const ACTIVITY_HIGH_RAW: i64 = 6553600;

/// Activity at or below this raw fixed-point value (10.0) is dormant.
pub const ACTIVITY_LOW_RAW: i64 = 655360;

/// What the trainer does with the network this cycle.
#[derive(Clone, Copy, Debug, PartialEq, Eq, Structural)]
pub enum TrainerAction {
    /// Cool an over-excited network down.
    Inhibit,
    /// Wake a dormant network up.
    Stimulate,
    /// Leave a healthy network alone.
    Hold,
}

/// The background trainer.
pub struct AutoTrainer;

impl AutoTrainer {
    /// The homeostasis rule: inhibit strictly above the high mark, stimulate
    /// strictly below the low mark, otherwise hold.
    pub fn next_adjustment(activity: FixedPoint) -> (r: TrainerAction)
        ensures
            r == TrainerAction::Inhibit <==> activity.raw > ACTIVITY_HIGH_RAW,
            r == TrainerAction::Stimulate <==> activity.raw < ACTIVITY_LOW_RAW,
            r == TrainerAction::Hold <==> (ACTIVITY_LOW_RAW <= activity.raw
                <= ACTIVITY_HIGH_RAW),
    {
        if activity.raw > ACTIVITY_HIGH_RAW {
            TrainerAction::Inhibit
        } else if activity.raw < ACTIVITY_LOW_RAW {
            TrainerAction::Stimulate
        } else {
            TrainerAction::Hold
        }
    }
}

} // verus!
