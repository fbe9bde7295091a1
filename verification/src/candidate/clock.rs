//! Correction of the clock on board a vehicle.
use crate::time::Duration;
use vstd::prelude::*;

verus! {

/// Offset of the clock on board a vehicle to its time scale.
#[derive(Clone, Copy, Debug, PartialEq, Eq, Structural)]
pub struct ClockCorrection {
    /// The offset
    pub duration: Duration,
    /// The relativistic effect is still to be taken out of the offset
    pub needs_relativistic_correction: bool,
}

impl ClockCorrection {
    /// An offset that already accounts for the relativistic effect.
    pub fn without_relativistic_correction(duration: Duration) -> (c: Self)
        ensures
            c == (ClockCorrection { duration, needs_relativistic_correction: false }),
    {
        ClockCorrection { duration, needs_relativistic_correction: false }
    }

    /// An offset of which the relativistic effect is still to be taken out.
    pub fn needs_relativistic_correction(duration: Duration) -> (c: Self)
        ensures
            c == (ClockCorrection { duration, needs_relativistic_correction: true }),
    {
        ClockCorrection { duration, needs_relativistic_correction: true }
    }
}

} // verus!
