//! The position that the solver starts from.
use crate::orbit::Vector3;
use vstd::prelude::*;

verus! {

/// A reference point on the ground, told in both frames.
#[derive(Clone, Copy, Debug, PartialEq, Eq, Structural)]
pub struct AprioriPosition {
    /// Earth-centered, Earth-fixed coordinates, in meters
    pub ecef: Vector3,
    /// Geodetic coordinates: latitude and longitude in radians, altitude
    /// above the ellipsoid in meters
    pub geodetic: Vector3,
}

impl AprioriPosition {
    /// The point whose coordinates are `ecef` in one frame and `geodetic` in the other.
    pub fn from_parts(ecef: Vector3, geodetic: Vector3) -> (p: Self)
        ensures
            p == (AprioriPosition { ecef, geodetic }),
    {
        AprioriPosition { ecef, geodetic }
    }

    /// Earth-centered, Earth-fixed coordinates.
    pub fn ecef(&self) -> (v: Vector3)
        ensures
            v == self.ecef,
    {
        self.ecef
    }

    /// Geodetic coordinates.
    pub fn geodetic(&self) -> (v: Vector3)
        ensures
            v == self.geodetic,
    {
        self.geodetic
    }
}

} // verus!
