//! Validation of a freshly computed fix.
use crate::cfg::SolverOpts;
use crate::navigation::solutions::PVTSolutionType;
use crate::navigation::Output;
use crate::scalar::Scalar;
use vstd::prelude::*;

verus! {

/// Reason why a solution was invalidated.
#[derive(Clone, Copy, Debug, PartialEq, Eq, Structural)]
pub enum InvalidationCause {
    /// The first solution of a session is always withheld
    FirstSolution,
    /// Geometric dilution of precision above its limit
    GDOPOutlier(Scalar),
    /// Temporal dilution of precision above its limit
    TDOPOutlier(Scalar),
    /// Filter innovation above its limit
    InnovationOutlier(Scalar),
    /// Code residual above its limit
    CodeResidual(Scalar),
}

/// What a fix is judged on.
#[derive(Clone, Debug, PartialEq, Eq)]
pub struct Validator {
    /// Geometric dilution of precision
    pub gdop: Scalar,
    /// Time dilution of precision
    pub tdop: Scalar,
    /// Code residual of each measurement, in meters
    pub residuals: Vec<Scalar>,
    /// Norm of the innovation of the Kalman filter, where there is one
    pub innovation: Option<Scalar>,
}

/// `value` is above `limit`, where a limit is set.
pub open spec fn exceeds(value: Scalar, limit: Option<Scalar>) -> bool {
    match limit {
        Some(max) => max.lt_spec(value),
        None => false,
    }
}

/// The size of `value` is above `limit`.
pub open spec fn oversized(value: Scalar, limit: Scalar) -> bool {
    limit.lt_spec(Scalar { bits: value.magnitude() })
}

/// The first residual whose size is above `limit`, if there is one.
pub open spec fn first_oversized(residuals: Seq<Scalar>, limit: Scalar) -> Option<Scalar>
    decreases residuals.len(),
{
    if residuals.len() == 0 {
        None
    } else if oversized(residuals[0], limit) {
        Some(residuals[0])
    } else {
        first_oversized(residuals.drop_first(), limit)
    }
}

/// Whether `value` is above `limit`, where a limit is set.
fn is_above(value: &Scalar, limit: &Option<Scalar>) -> (r: bool)
    ensures
        r == exceeds(*value, *limit),
{
    match limit {
        Some(max) => max.lt(value),
        None => false,
    }
}

impl Validator {
    /// The cause for which the fix is to be rejected, if there is one. The
    /// geometry comes first, unless time alone is asked: the geometric
    /// dilution, then the time dilution. Then, where a limit is set on the
    /// innovation, the first code residual whose size is above it, then the
    /// innovation of the filter.
    pub open spec fn verdict(
        gdop: Scalar,
        tdop: Scalar,
        residuals: Seq<Scalar>,
        innovation: Option<Scalar>,
        opts: SolverOpts,
        sol_type: PVTSolutionType,
    ) -> Option<InvalidationCause> {
        if sol_type != PVTSolutionType::TimeOnly && exceeds(gdop, opts.gdop_threshold) {
            Some(InvalidationCause::GDOPOutlier(gdop))
        } else if sol_type != PVTSolutionType::TimeOnly && exceeds(tdop, opts.tdop_threshold) {
            Some(InvalidationCause::TDOPOutlier(tdop))
        } else {
            match opts.innovation_threshold {
                None => None,
                Some(limit) => match first_oversized(residuals, limit) {
                    Some(r) => Some(InvalidationCause::CodeResidual(r)),
                    None => match innovation {
                        Some(v) => if oversized(v, limit) {
                            Some(InvalidationCause::InnovationOutlier(v))
                        } else {
                            None
                        },
                        None => None,
                    },
                },
            }
        }
    }

    /// The cause for which this fix is to be rejected, if there is one.
    pub open spec fn cause(self, opts: SolverOpts, sol_type: PVTSolutionType) -> Option<
        InvalidationCause,
    > {
        Validator::verdict(
            self.gdop,
            self.tdop,
            self.residuals@,
            self.innovation,
            opts,
            sol_type,
        )
    }

    /// What the output of the filter is to be judged on, with the code
    /// residuals of the measurements and the innovation of the filter.
    pub fn new(output: &Output, residuals: Vec<Scalar>, innovation: Option<Scalar>) -> (v: Self)
        ensures
            v.gdop == output.gdop,
            v.tdop == output.tdop,
            v.residuals@ == residuals@,
            v.innovation == innovation,
    {
        Validator { gdop: output.gdop, tdop: output.tdop, residuals, innovation }
    }

    /// Judges the fix: `Ok` where nothing speaks against it, else the cause.
    pub fn validate(&self, opts: &SolverOpts, sol_type: PVTSolutionType) -> (r: Result<
        (),
        InvalidationCause,
    >)
        ensures
            r == match self.cause(*opts, sol_type) {
                Some(cause) => Err::<(), InvalidationCause>(cause),
                None => Ok::<(), InvalidationCause>(()),
            },
    {
        if sol_type != PVTSolutionType::TimeOnly {
            if is_above(&self.gdop, &opts.gdop_threshold) {
                return Err(InvalidationCause::GDOPOutlier(self.gdop));
            }
            if is_above(&self.tdop, &opts.tdop_threshold) {
                return Err(InvalidationCause::TDOPOutlier(self.tdop));
            }
        }
        let limit = match opts.innovation_threshold {
            Some(limit) => limit,
            None => {
                return Ok(());
            },
        };
        let n: usize = self.residuals.len();
        let mut i: usize = 0;
        assert(self.residuals@.subrange(0, n as int) =~= self.residuals@);
        while i < n
            invariant
                n == self.residuals.len(),
                i <= n,
                opts.innovation_threshold == Some(limit),
                sol_type == PVTSolutionType::TimeOnly || (!exceeds(self.gdop, opts.gdop_threshold)
                    && !exceeds(self.tdop, opts.tdop_threshold)),
                first_oversized(self.residuals@, limit) == first_oversized(
                    self.residuals@.subrange(i as int, n as int),
                    limit,
                ),
            decreases n - i,
        {
            let r = self.residuals[i];
            let ghost rest = self.residuals@.subrange(i as int, n as int);
            assert(rest[0] == r);
            assert(rest.drop_first() =~= self.residuals@.subrange(i + 1, n as int));
            let size = r.abs();
            assert(size == Scalar { bits: r.magnitude() });
            if limit.lt(&size) {
                return Err(InvalidationCause::CodeResidual(r));
            }
            i += 1;
        }
        assert(self.residuals@.subrange(n as int, n as int).len() == 0);
        match self.innovation {
            Some(v) => {
                let size = v.abs();
                assert(size == Scalar { bits: v.magnitude() });
                if limit.lt(&size) {
                    Err(InvalidationCause::InnovationOutlier(v))
                } else {
                    Ok(())
                }
            },
            None => Ok(()),
        }
    }
}

} // verus!
