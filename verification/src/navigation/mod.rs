//! The navigation filter's interface: what enters it, what leaves it, and
//! the state it carries from one epoch to the next.
use crate::bias::Bias;
use crate::error::Error;
use crate::scalar::Scalar;
use vstd::prelude::*;

pub mod filter;
pub mod input;
pub mod solutions;

pub use filter::{
    Filter, FilterState, KFState, Kernel, LSQState, Matrix4, Matrix8, Resolution, Vector8,
};
pub use input::{Input, Range, Row};
pub use solutions::{PVTSolution, PVTSolutionType};

verus! {

/// What one vehicle brought to a solution.
#[derive(Clone, Copy, Debug, PartialEq, Eq, Structural)]
pub struct SVInput {
    /// Azimuth of the vehicle, in degrees
    pub azimuth: Scalar,
    /// Elevation of the vehicle, in degrees
    pub elevation: Scalar,
    /// Ionosphere delay, in meters
    pub iono_bias: Bias,
    /// Troposphere delay, in meters
    pub tropo_bias: Bias,
}

/// What the filter gives for one epoch.
#[derive(Clone, Copy, Debug, PartialEq, Eq)]
pub struct Output {
    /// Time dilution of precision
    pub tdop: Scalar,
    /// Geometric dilution of precision
    pub gdop: Scalar,
    /// Position dilution of precision
    pub pdop: Scalar,
    /// Covariance of the geometry
    pub q: Matrix8,
    /// State of the filter after this epoch
    pub state: FilterState,
}

impl Output {
    /// The clock offset that was estimated, as a distance: the fourth unknown.
    pub open spec fn clock(self) -> Scalar {
        self.state.unknowns().cells@[3]
    }

    /// The covariance of position and clock: the upper left quarter of `q`.
    pub fn q_covar4x4(&self) -> (m: Matrix4)
        ensures
            forall|i: int, j: int|
                0 <= i < 4 && 0 <= j < 4 ==> #[trigger] m.at(i, j) == self.q.at(i, j),
    {
        self.q.upper_left()
    }
}

/// The filter of a session, with the state it carries. What the filter
/// gives for an epoch is pending until the solution is validated; only then
/// does it become the state that the next epoch starts from.
#[derive(Clone, Copy, Debug)]
pub struct Navigation {
    /// The filter in use
    pub filter: Filter,
    /// What the filter gave last, not validated yet
    pub pending: Option<Output>,
    /// The state that the next epoch starts from
    pub filter_state: Option<FilterState>,
}

impl Navigation {
    /// What `outcome`, the result of the computation, is to be answered
    /// with: a matrix that could not be inverted left no result; a fix made
    /// from scratch whose clock offset is not a number is refused.
    pub open spec fn judgement(self, outcome: Option<Output>) -> Result<Output, Error> {
        match outcome {
            None => Err(Error::MatrixInversion),
            Some(output) => if self.filter.resolution(self.filter_state).prior is None
                && output.clock().nan() {
                Err(Error::TimeIsNan)
            } else {
                Ok(output)
            },
        }
    }

    /// A filter that carries nothing yet.
    pub fn new(filter: Filter) -> (nav: Self)
        ensures
            nav.filter == filter,
            nav.pending is None,
            nav.filter_state is None,
    {
        Navigation { filter, filter_state: None, pending: None }
    }

    /// How the next epoch is to be solved.
    pub fn resolution(&self) -> (r: Resolution)
        ensures
            r == self.filter.resolution(self.filter_state),
    {
        self.filter.resolve(self.filter_state)
    }

    /// Takes in what the computation gave for this epoch. An accepted
    /// output becomes pending; the carried state is left as it is.
    pub fn resolve(&mut self, outcome: Option<Output>) -> (r: Result<Output, Error>)
        ensures
            r == old(self).judgement(outcome),
            final(self).filter == old(self).filter,
            final(self).filter_state == old(self).filter_state,
            final(self).pending == if r is Ok {
                outcome
            } else {
                old(self).pending
            },
    {
        match outcome {
            None => Err(Error::MatrixInversion),
            Some(output) => {
                let from_scratch = self.resolution().prior.is_none();
                let x = output.state.estimate();
                if from_scratch && x.cells[3].is_nan() {
                    Err(Error::TimeIsNan)
                } else {
                    self.pending = Some(output);
                    Ok(output)
                }
            },
        }
    }

    /// Commits what is pending: the state that the filter gave last becomes
    /// the state that the next epoch starts from.
    pub fn validate(&mut self)
        ensures
            final(self).filter == old(self).filter,
            final(self).pending == old(self).pending,
            final(self).filter_state == match old(self).pending {
                Some(output) => Some(output.state),
                None => old(self).filter_state,
            },
    {
        if let Some(output) = self.pending {
            self.filter_state = Some(output.state);
        }
    }
}

} // verus!
