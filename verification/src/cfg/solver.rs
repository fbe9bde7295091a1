//! Solver customization.
use crate::navigation::Filter;
use crate::scalar::Scalar;
use vstd::prelude::*;

verus! {

pub fn default_model_update() -> (r: bool)
    ensures
        r,
{
    true
}

pub fn default_postfit_kf() -> (r: bool)
    ensures
        !r,
{
    false
}

pub fn default_gdop_threshold() -> (r: Option<Scalar>)
    ensures
        r is None,
{
    None
}

pub fn default_tdop_threshold() -> (r: Option<Scalar>)
    ensures
        r is None,
{
    None
}

pub fn default_weight_matrix() -> (r: Option<WeightMatrix>)
    ensures
        r is None,
{
    None
}

/// Standard deviation of a measurement as a function of the elevation `e`
/// of its vehicle: `a + b * exp(-e / c)`.
#[derive(Clone, Copy, Debug, PartialEq, Eq, Structural)]
pub struct ElevationMappingFunction {
    pub a: Scalar,
    pub b: Scalar,
    pub c: Scalar,
}

/// How the measurements are weighted
#[derive(Clone, Copy, Debug, PartialEq, Eq, Structural)]
pub enum WeightMatrix {
    /// By the elevation of each vehicle
    MappingFunction(ElevationMappingFunction),
    /// By a measurement noise covariance matrix
    Covar,
}

/// Filter loop exit criteria
#[derive(Clone, Copy, Debug, PartialEq, Eq, Structural)]
pub enum LoopExitCriteria {
    /// Leave the loop once this number of iterations has been made.
    Iteration(usize),
}

impl Default for LoopExitCriteria {
    fn default() -> (r: Self)
        ensures
            r == LoopExitCriteria::Iteration(10),
    {
        LoopExitCriteria::Iteration(10)
    }
}

/// Filter options
#[derive(Clone, Copy, Debug, PartialEq, Eq, Structural)]
pub struct FilterOpts {
    /// Update the perturbation models at each iteration, not the position alone
    pub model_update: bool,
    /// When to leave the iteration loop
    pub loop_exit: LoopExitCriteria,
    /// How the measurements are weighted; all alike where `None`
    pub weight_matrix: Option<WeightMatrix>,
}

impl FilterOpts {
    /// The options that apply unless told otherwise.
    pub open spec fn is_standard(self) -> bool {
        &&& self.weight_matrix is None
        &&& self.model_update
        &&& self.loop_exit == LoopExitCriteria::Iteration(10)
    }
}

impl Default for FilterOpts {
    fn default() -> (r: Self)
        ensures
            r.is_standard(),
    {
        FilterOpts {
            weight_matrix: default_weight_matrix(),
            model_update: default_model_update(),
            loop_exit: LoopExitCriteria::default(),
        }
    }
}

/// Solver customization
#[derive(Clone, Copy, Debug, PartialEq, Eq, Structural)]
pub struct SolverOpts {
    /// Geometric dilution of precision above which a solution is rejected
    pub gdop_threshold: Option<Scalar>,
    /// Temporal dilution of precision above which a solution is rejected
    pub tdop_threshold: Option<Scalar>,
    /// Size of a residual, or of the filter innovation, above which a solution is rejected
    pub innovation_threshold: Option<Scalar>,
    /// Filter to use
    pub filter: Filter,
    /// Filter options
    pub filter_opts: FilterOpts,
    /// Smooth the solutions with one more Kalman filter
    pub postfit_kf: bool,
}

impl Default for SolverOpts {
    fn default() -> (r: Self)
        ensures
            r.filter == Filter::LSQ,
            r.filter_opts.is_standard(),
            !r.postfit_kf,
            r.gdop_threshold is None,
            r.tdop_threshold is None,
            r.innovation_threshold is None,
    {
        SolverOpts {
            filter: Filter::LSQ,
            filter_opts: FilterOpts::default(),
            postfit_kf: default_postfit_kf(),
            gdop_threshold: default_gdop_threshold(),
            tdop_threshold: default_tdop_threshold(),
            innovation_threshold: None,
        }
    }
}

} // verus!
