//! Solutions and their validation.
use crate::ambiguity::Ambiguity;
use crate::navigation::filter::Matrix4;
use crate::navigation::SVInput;
use crate::orbit::Vector3;
use crate::scalar::Scalar;
use crate::sv::SV;
use crate::time::{Duration, TimeScale};
use vstd::prelude::*;

pub mod validator;

pub use validator::{InvalidationCause, Validator};

verus! {

/// What a solution is asked to tell.
#[derive(Clone, Copy, Debug, PartialEq, Eq, Structural)]
pub enum PVTSolutionType {
    /// Position, velocity and receiver clock offset
    PositionVelocityTime,
    /// The receiver clock offset only: position and velocity are left at zero
    TimeOnly,
}

impl Default for PVTSolutionType {
    fn default() -> (r: Self)
        ensures
            r == PVTSolutionType::PositionVelocityTime,
    {
        PVTSolutionType::PositionVelocityTime
    }
}

/// A vehicle and what it brought to a solution.
#[derive(Clone, Copy, Debug, PartialEq, Eq, Structural)]
pub struct Contribution {
    pub sv: SV,
    pub input: SVInput,
}

/// Position, velocity and time, as resolved for one epoch.
#[derive(Clone, Debug, PartialEq, Eq)]
pub struct PVTSolution {
    /// Position in the Earth-centered, Earth-fixed frame, in meters
    pub position: Vector3,
    /// Velocity, in meters per second
    pub velocity: Vector3,
    /// Time scale of the clock offset
    pub timescale: TimeScale,
    /// Offset of the receiver clock to the time scale
    pub dt: Duration,
    /// Drift of the receiver clock, in seconds per second
    pub d_dt: Scalar,
    /// The vehicles that contributed, in the order of the measurements
    pub sv: Vec<Contribution>,
    /// Geometric dilution of precision
    pub gdop: Scalar,
    /// Time dilution of precision
    pub tdop: Scalar,
    /// Position dilution of precision
    pub pdop: Scalar,
    /// Covariance of position and clock
    pub q: Matrix4,
    /// The carrier phase ambiguities that held when the solution was made
    pub ambiguities: Vec<Ambiguity>,
}

/// A solution as a mathematical value.
pub struct PVTSolutionView {
    pub position: Vector3,
    pub velocity: Vector3,
    pub timescale: TimeScale,
    pub dt: Duration,
    pub d_dt: Scalar,
    pub sv: Seq<Contribution>,
    pub gdop: Scalar,
    pub tdop: Scalar,
    pub pdop: Scalar,
    pub q: Matrix4,
    pub ambiguities: Seq<Ambiguity>,
}

impl View for PVTSolution {
    type V = PVTSolutionView;

    open spec fn view(&self) -> PVTSolutionView {
        PVTSolutionView {
            position: self.position,
            velocity: self.velocity,
            timescale: self.timescale,
            dt: self.dt,
            d_dt: self.d_dt,
            sv: self.sv@,
            gdop: self.gdop,
            tdop: self.tdop,
            pdop: self.pdop,
            q: self.q,
            ambiguities: self.ambiguities@,
        }
    }
}

impl PVTSolutionView {
    /// The solution as it is published: with a fixed altitude, the third
    /// coordinate of the position is that altitude and the third of the
    /// velocity is zero; where time alone is asked, position and velocity
    /// are zero.
    pub open spec fn reworked(
        self,
        fixed_altitude: Option<Scalar>,
        sol_type: PVTSolutionType,
    ) -> PVTSolutionView {
        let zero = Scalar { bits: 0 };
        let origin = Vector3 { x: zero, y: zero, z: zero };
        if sol_type == PVTSolutionType::TimeOnly {
            PVTSolutionView { position: origin, velocity: origin, ..self }
        } else {
            match fixed_altitude {
                Some(altitude) => PVTSolutionView {
                    position: Vector3 { z: altitude, ..self.position },
                    velocity: Vector3 { z: zero, ..self.velocity },
                    ..self
                },
                None => self,
            }
        }
    }
}

impl PVTSolution {
    /// A copy of the solution.
    pub fn duplicate(&self) -> (copy: PVTSolution)
        ensures
            copy@ == self@,
    {
        let n: usize = self.sv.len();
        let mut sv: Vec<Contribution> = Vec::new();
        let mut i: usize = 0;
        while i < n
            invariant
                n == self.sv.len(),
                i <= n,
                sv@ == self.sv@.subrange(0, i as int),
            decreases n - i,
        {
            sv.push(self.sv[i]);
            i += 1;
            assert(sv@ =~= self.sv@.subrange(0, i as int));
        }
        assert(self.sv@.subrange(0, n as int) =~= self.sv@);
        let m: usize = self.ambiguities.len();
        let mut ambiguities: Vec<Ambiguity> = Vec::new();
        let mut j: usize = 0;
        while j < m
            invariant
                m == self.ambiguities.len(),
                j <= m,
                ambiguities@ == self.ambiguities@.subrange(0, j as int),
            decreases m - j,
        {
            ambiguities.push(self.ambiguities[j]);
            j += 1;
            assert(ambiguities@ =~= self.ambiguities@.subrange(0, j as int));
        }
        assert(self.ambiguities@.subrange(0, m as int) =~= self.ambiguities@);
        PVTSolution {
            position: self.position,
            velocity: self.velocity,
            timescale: self.timescale,
            dt: self.dt,
            d_dt: self.d_dt,
            sv,
            gdop: self.gdop,
            tdop: self.tdop,
            pdop: self.pdop,
            q: self.q,
            ambiguities,
        }
    }
}

/// Where time alone is asked, the solution that is published stands at the
/// origin and does not move; the clock offset and everything else are as
/// they were resolved.
pub proof fn lemma_time_only_is_at_origin(s: PVTSolutionView, fixed_altitude: Option<Scalar>)
    ensures
        s.reworked(fixed_altitude, PVTSolutionType::TimeOnly).position.is_origin(),
        s.reworked(fixed_altitude, PVTSolutionType::TimeOnly).velocity.is_origin(),
        s.reworked(fixed_altitude, PVTSolutionType::TimeOnly).dt == s.dt,
        s.reworked(fixed_altitude, PVTSolutionType::TimeOnly) == (PVTSolutionView {
            position: s.reworked(fixed_altitude, PVTSolutionType::TimeOnly).position,
            velocity: s.reworked(fixed_altitude, PVTSolutionType::TimeOnly).velocity,
            ..s
        }),
{
}

/// To give a solution its final form twice is to give it once.
pub proof fn lemma_reworked_once(
    s: PVTSolutionView,
    fixed_altitude: Option<Scalar>,
    sol_type: PVTSolutionType,
)
    ensures
        s.reworked(fixed_altitude, sol_type).reworked(fixed_altitude, sol_type) == s.reworked(
            fixed_altitude,
            sol_type,
        ),
{
}

} // verus!
