//! What a caller of the library mostly needs, in one place.
pub use crate::ambiguity::{Ambiguity, AmbiguitySolver};
pub use crate::apriori::AprioriPosition;
pub use crate::bancroft::Bancroft;
pub use crate::bias::Bias;
pub use crate::candidate::{Candidate, ClockCorrection, Observable, Observation};
pub use crate::carrier::{Carrier, Signal};
pub use crate::cfg::{Config, Method, Modeling};
pub use crate::error::Error;
pub use crate::navigation::solutions::{InvalidationCause, Validator};
pub use crate::navigation::{Filter, Input, Navigation, Output, PVTSolution, PVTSolutionType};
pub use crate::orbit::{Attitude, EclipseState, OrbitalState, OrbitalStateProvider, Vector3};
pub use crate::rtk::BaseStation;
pub use crate::scalar::Scalar;
pub use crate::solver::{Action, Event, Solver, Stage};
pub use crate::sv::{Constellation, SV};
pub use crate::time::{Duration, Epoch, TimeScale};
