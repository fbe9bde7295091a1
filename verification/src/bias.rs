//! Atmospheric delays, as they enter a solution.
use crate::scalar::Scalar;
use vstd::prelude::*;

verus! {

/// A delay in meters, with where it comes from.
#[derive(Clone, Copy, Debug, PartialEq, Eq, Structural)]
pub enum Bias {
    /// No delay was accounted for
    Unknown,
    /// The delay that a model gave
    Modeled(Scalar),
    /// The delay that was measured
    Measured(Scalar),
}

impl Bias {
    /// The delay, whatever it comes from.
    pub open spec fn magnitude(self) -> Option<Scalar> {
        match self {
            Bias::Unknown => None,
            Bias::Modeled(v) => Some(v),
            Bias::Measured(v) => Some(v),
        }
    }

    /// A delay that a model gave.
    pub fn modeled(value: Scalar) -> (b: Bias)
        ensures
            b == Bias::Modeled(value),
    {
        Bias::Modeled(value)
    }

    /// A delay that was measured.
    pub fn measured(value: Scalar) -> (b: Bias)
        ensures
            b == Bias::Measured(value),
    {
        Bias::Measured(value)
    }

    /// The delay, whatever it comes from.
    pub fn value(&self) -> (v: Option<Scalar>)
        ensures
            v == self.magnitude(),
    {
        match self {
            Bias::Unknown => None,
            Bias::Modeled(v) => Some(*v),
            Bias::Measured(v) => Some(*v),
        }
    }
}

impl Default for Bias {
    fn default() -> (b: Self)
        ensures
            b == Bias::Unknown,
    {
        Bias::Unknown
    }
}

} // verus!
