//! The errors a resolution attempt may end with.
use crate::navigation::solutions::validator::InvalidationCause;
use crate::sv::SV;
use crate::time::Epoch;
use vstd::prelude::*;

verus! {

#[derive(Clone, Copy, Debug, PartialEq, Eq, Structural)]
pub enum Error {
    /// Not enough candidates were proposed, with respect to navigation parameters.
    NotEnoughCandidates,
    /// A survey without known position needs four vehicles in sight, whatever the technique.
    NotEnoughInitializationCandidates,
    /// Too few vehicles are left once the signal criteria have been applied.
    NotEnoughPreFitCandidates,
    /// Too few vehicles are left once the states have been resolved.
    NotEnoughPostFitCandidates,
    /// Unsupported or invalid strategy.
    InvalidStrategy,
    /// Too few vehicles to form a matrix.
    MatrixMinimalDimension,
    /// Invalid matrix setup.
    MatrixDimension,
    /// The navigation matrix could not be formed.
    MatrixFormationError,
    /// A matrix could not be inverted.
    MatrixInversion,
    /// The resolved clock offset is not a number.
    TimeIsNan,
    /// The solver was not driven as it expects: an event came out of turn,
    /// or the instant of an epoch lies before that of the previous solution.
    NavigationError,
    /// The navigation filter could not be initialized.
    NavigationFilterInitError,
    /// A pseudo range observation is missing.
    MissingPseudoRange,
    /// Pseudo range was not sampled on two separate frequencies.
    PseudoRangeCombination,
    /// Carrier phase was not sampled on two separate frequencies.
    PhaseRangeCombination,
    /// A candidate was presented without its orbital state.
    UnresolvedState,
    /// The closed-form first guess needs four fully resolved candidates.
    UnresolvedStateBancroft,
    /// The on-board clock correction is needed and was not given.
    UnknownClockCorrection,
    /// The signal would have been received before it was sent.
    PhysicalNonSenseRxPriorTx,
    /// The signal would have been received too late.
    PhysicalNonSenseRxTooLate,
    /// The fix was computed and then rejected.
    InvalidatedSolution(InvalidationCause),
    /// The closed-form first guess failed on its input.
    BancroftError,
    /// The closed-form first guess has no real root.
    BancroftImaginarySolution,
    /// The carrier phase ambiguities are not fixed yet.
    UnresolvedAmbiguity,
    /// A vehicle was not observed on the reference site.
    MissingRemoteRTKObservation(Epoch, SV),
    /// No vehicle was observed on the reference site.
    MissingRemoteRTKObservations,
    /// Unknown or unsupported frequency.
    InvalidFrequency,
    /// The troposphere delay was rejected.
    RejectedTropoDelay,
    /// The ionosphere delay was rejected.
    RejectedIonoDelay,
    /// The filter converged to a physically invalid state.
    StateUpdate,
}

} // verus!
